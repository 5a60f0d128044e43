//! Completion for an editor: which suggestions fit the cursor, out of two
//! fixed tables, one of HTTP methods and one of common headers.

use vstd::prelude::*;
use crate::text::{
    chars_of, decimal, has_prefix, has_suffix, lines, lines_of, push_decimal, text_of, trim,
    trim_chars, views,
};
use vstd::string::StringExecFns;

verus! {

/// The upper-case form of a text, as Unicode maps it.
pub uninterp spec fn uppercased(s: Seq<char>) -> Seq<char>;

/// `str::to_uppercase` of the standard library: the upper-case form of the
/// text. The contract claims only that the result is a function of the text.
pub assume_specification[ str::to_uppercase ](s: &str) -> (r: String)
    ensures
        r@ == uppercased(s@),
;

/// How many methods the table holds.
pub const METHOD_COUNT: usize = 9;

/// How many headers the table holds.
pub const HEADER_COUNT: usize = 14;

/// What a suggestion stands for.
#[derive(Clone, Copy, Debug, PartialEq, Eq, Structural)]
pub enum CompletionKind {
    /// An HTTP method.
    Keyword,
    /// A header.
    Field,
}

/// One suggestion.
#[derive(Debug)]
pub struct Completion {
    /// What the list shows.
    pub label: String,
    /// What the suggestion stands for.
    pub kind: CompletionKind,
    /// A word on what the suggestion is.
    pub detail: String,
    /// The key by which the list is ordered.
    pub sort_text: String,
    /// What is written when the suggestion is taken.
    pub insert_text: String,
}

/// The mathematical value of a suggestion.
pub struct CompletionView {
    pub label: Seq<char>,
    pub kind: CompletionKind,
    pub detail: Seq<char>,
    pub sort_text: Seq<char>,
    pub insert_text: Seq<char>,
}

impl View for Completion {
    type V = CompletionView;

    open spec fn view(&self) -> CompletionView {
        CompletionView {
            label: self.label@,
            kind: self.kind,
            detail: self.detail@,
            sort_text: self.sort_text@,
            insert_text: self.insert_text@,
        }
    }
}

/// The values of a list of suggestions.
pub open spec fn completion_views(items: Seq<Completion>) -> Seq<CompletionView> {
    items.map_values(|c: Completion| c@)
}

/// The method at place `i` of the table.
pub open spec fn method_at(i: int) -> Seq<char> {
    if i == 0 {
        "GET"@
    } else if i == 1 {
        "POST"@
    } else if i == 2 {
        "PUT"@
    } else if i == 3 {
        "DELETE"@
    } else if i == 4 {
        "PATCH"@
    } else if i == 5 {
        "HEAD"@
    } else if i == 6 {
        "OPTIONS"@
    } else if i == 7 {
        "TRACE"@
    } else {
        "CONNECT"@
    }
}

/// The header name at place `i` of the table.
pub open spec fn header_name_at(i: int) -> Seq<char> {
    if i == 0 {
        "Accept"@
    } else if i == 1 {
        "Accept-Encoding"@
    } else if i == 2 {
        "Accept-Language"@
    } else if i == 3 {
        "Authorization"@
    } else if i == 4 {
        "Cache-Control"@
    } else if 5 <= i <= 7 {
        "Content-Type"@
    } else if i == 8 {
        "Cookie"@
    } else if i == 9 {
        "Host"@
    } else if i == 10 {
        "Origin"@
    } else if i == 11 {
        "Referer"@
    } else if i == 12 {
        "User-Agent"@
    } else {
        "X-Request-ID"@
    }
}

/// The value suggested with the header at place `i`, or `None` where the
/// table suggests none.
pub open spec fn header_value_at(i: int) -> Option<Seq<char>> {
    if i == 0 {
        Some("application/json"@)
    } else if i == 1 {
        Some("gzip, deflate, br"@)
    } else if i == 2 {
        Some("en-US,en;q=0.9"@)
    } else if i == 3 {
        Some("Bearer "@)
    } else if i == 4 {
        Some("no-cache"@)
    } else if i == 5 {
        Some("application/json"@)
    } else if i == 6 {
        Some("application/x-www-form-urlencoded"@)
    } else if i == 7 {
        Some("text/plain"@)
    } else {
        None
    }
}

/// The sort key of place `i`: its number in at least two digits.
pub open spec fn sort_key(i: nat) -> Seq<char> {
    if i < 10 {
        "0"@ + decimal(i)
    } else {
        decimal(i)
    }
}

/// The suggestion for the method at place `i`.
pub open spec fn method_item(i: int) -> CompletionView {
    CompletionView {
        label: method_at(i),
        kind: CompletionKind::Keyword,
        detail: "HTTP Method"@,
        sort_text: sort_key(i as nat),
        insert_text: method_at(i) + " "@,
    }
}

/// The suggestion for the header at place `i`.
pub open spec fn header_item(i: int) -> CompletionView {
    CompletionView {
        label: header_name_at(i),
        kind: CompletionKind::Field,
        detail: "HTTP Header"@,
        sort_text: sort_key(i as nat),
        insert_text: match header_value_at(i) {
            Some(value) => header_name_at(i) + ": "@ + value,
            None => header_name_at(i) + ": "@,
        },
    }
}

/// The suggestions for all methods, in table order.
pub open spec fn method_items() -> Seq<CompletionView> {
    Seq::new(9, |i: int| method_item(i))
}

/// The suggestions for all headers, in table order.
pub open spec fn header_items() -> Seq<CompletionView> {
    Seq::new(14, |i: int| header_item(i))
}

/// Whether the upper-case text `t` begins with one of the methods.
pub open spec fn begins_with_method(t: Seq<char>) -> bool {
    exists|i: int| 0 <= i < 9 && #[trigger] method_at(i).is_prefix_of(t)
}

/// Whether a method fits on the line: the line is blank, or what stands on
/// it begins, case aside, with a method.
pub open spec fn at_method_position(line: Seq<char>) -> bool {
    trim(line).len() == 0 || begins_with_method(uppercased(trim(line)))
}

/// The line at place `line` of `text`, counted from 0, or the empty text
/// where there is no such line.
pub open spec fn line_or_empty(text: Seq<char>, line: int) -> Seq<char> {
    if 0 <= line < lines(text).len() {
        lines(text)[line]
    } else {
        Seq::empty()
    }
}

/// Whether a path names an `.http` file.
pub open spec fn names_http_file(path: Seq<char>) -> bool {
    ".http"@.is_suffix_of(path)
}

/// The suggestions offered at a cursor: methods at the start of a line and on
/// a line where a method fits, headers elsewhere.
pub open spec fn offered(line: Seq<char>, character: u32) -> Seq<CompletionView> {
    if character == 0 || at_method_position(line) {
        method_items()
    } else {
        header_items()
    }
}

/// What completion answers for a document: nothing for a path that names no
/// `.http` file; otherwise the suggestions for the cursor's line, taken as
/// empty where the document is unknown or has no such line.
pub open spec fn completed(
    path: Seq<char>,
    document: Option<Seq<char>>,
    line: int,
    character: u32,
) -> Option<Seq<CompletionView>> {
    if !names_http_file(path) {
        None
    } else {
        match document {
            Some(text) => Some(offered(line_or_empty(text, line), character)),
            None => Some(offered(Seq::empty(), character)),
        }
    }
}

/// The method at place `i` of the table.
fn method_name(i: usize) -> (m: &'static str)
    requires
        i < METHOD_COUNT,
    ensures
        m@ == method_at(i as int),
{
    if i == 0 {
        "GET"
    } else if i == 1 {
        "POST"
    } else if i == 2 {
        "PUT"
    } else if i == 3 {
        "DELETE"
    } else if i == 4 {
        "PATCH"
    } else if i == 5 {
        "HEAD"
    } else if i == 6 {
        "OPTIONS"
    } else if i == 7 {
        "TRACE"
    } else {
        "CONNECT"
    }
}

/// The header name at place `i` of the table.
fn header_name(i: usize) -> (name: &'static str)
    requires
        i < HEADER_COUNT,
    ensures
        name@ == header_name_at(i as int),
{
    if i == 0 {
        "Accept"
    } else if i == 1 {
        "Accept-Encoding"
    } else if i == 2 {
        "Accept-Language"
    } else if i == 3 {
        "Authorization"
    } else if i == 4 {
        "Cache-Control"
    } else if 5 <= i && i <= 7 {
        "Content-Type"
    } else if i == 8 {
        "Cookie"
    } else if i == 9 {
        "Host"
    } else if i == 10 {
        "Origin"
    } else if i == 11 {
        "Referer"
    } else if i == 12 {
        "User-Agent"
    } else {
        "X-Request-ID"
    }
}

/// The value suggested with the header at place `i`, if the table has one.
fn header_value(i: usize) -> (value: Option<&'static str>)
    requires
        i < HEADER_COUNT,
    ensures
        match value {
            Some(v) => header_value_at(i as int) == Some(v@),
            None => header_value_at(i as int) is None,
        },
{
    if i == 0 {
        Some("application/json")
    } else if i == 1 {
        Some("gzip, deflate, br")
    } else if i == 2 {
        Some("en-US,en;q=0.9")
    } else if i == 3 {
        Some("Bearer ")
    } else if i == 4 {
        Some("no-cache")
    } else if i == 5 {
        Some("application/json")
    } else if i == 6 {
        Some("application/x-www-form-urlencoded")
    } else if i == 7 {
        Some("text/plain")
    } else {
        None
    }
}

/// The sort key of place `i`.
fn sort_key_of(i: usize) -> (s: String)
    ensures
        s@ == sort_key(i as nat),
{
    let mut s = String::new();
    if i < 10 {
        s.append("0");
    }
    push_decimal(&mut s, i as u128);
    assert(s@ =~= sort_key(i as nat));
    s
}

/// The suggestions for all methods, in table order.
pub fn method_completions() -> (items: Vec<Completion>)
    ensures
        completion_views(items@) == method_items(),
{
    let mut items: Vec<Completion> = Vec::new();
    let mut i: usize = 0;
    while i < METHOD_COUNT
        invariant
            i <= METHOD_COUNT,
            items@.len() == i,
            forall|j: int| 0 <= j < i ==> (#[trigger] items@[j])@ == method_item(j),
        decreases METHOD_COUNT - i,
    {
        let name = method_name(i);
        let mut insert_text = String::from_str(name);
        insert_text.append(" ");
        items.push(
            Completion {
                label: String::from_str(name),
                kind: CompletionKind::Keyword,
                detail: String::from_str("HTTP Method"),
                sort_text: sort_key_of(i),
                insert_text,
            },
        );
        i += 1;
    }
    assert(completion_views(items@) =~= method_items());
    items
}

/// The suggestions for all headers, in table order.
pub fn header_completions() -> (items: Vec<Completion>)
    ensures
        completion_views(items@) == header_items(),
{
    let mut items: Vec<Completion> = Vec::new();
    let mut i: usize = 0;
    while i < HEADER_COUNT
        invariant
            i <= HEADER_COUNT,
            items@.len() == i,
            forall|j: int| 0 <= j < i ==> (#[trigger] items@[j])@ == header_item(j),
        decreases HEADER_COUNT - i,
    {
        let name = header_name(i);
        let mut insert_text = String::from_str(name);
        insert_text.append(": ");
        match header_value(i) {
            Some(value) => {
                insert_text.append(value);
            },
            None => {},
        }
        items.push(
            Completion {
                label: String::from_str(name),
                kind: CompletionKind::Field,
                detail: String::from_str("HTTP Header"),
                sort_text: sort_key_of(i),
                insert_text,
            },
        );
        i += 1;
    }
    assert(completion_views(items@) =~= header_items());
    items
}

/// Whether the upper-case text `upper` begins with one of the methods.
pub fn starts_with_method(upper: &str) -> (b: bool)
    ensures
        b == begins_with_method(upper@),
{
    let text = chars_of(upper);
    let mut i: usize = 0;
    while i < METHOD_COUNT
        invariant
            i <= METHOD_COUNT,
            text@ == upper@,
            forall|j: int| 0 <= j < i ==> !(#[trigger] method_at(j)).is_prefix_of(text@),
        decreases METHOD_COUNT - i,
    {
        let method = chars_of(method_name(i));
        if has_prefix(&text, &method) {
            assert(method_at(i as int).is_prefix_of(text@));
            return true;
        }
        i += 1;
    }
    false
}

/// Whether a method fits on the line: the line is blank, or what stands on
/// it begins, case aside, with a method.
pub fn is_method_position(line_text: &str) -> (b: bool)
    ensures
        b == at_method_position(line_text@),
{
    let line = chars_of(line_text);
    let trimmed = trim_chars(&line);
    if trimmed.len() == 0 {
        return true;
    }
    let upper = text_of(&trimmed).as_str().to_uppercase();
    starts_with_method(upper.as_str())
}

/// The line at place `line` of `text`, counted from 0, or the empty text
/// where there is no such line.
pub fn line_at(text: &str, line: usize) -> (r: String)
    ensures
        r@ == line_or_empty(text@, line as int),
{
    let chars = chars_of(text);
    let ls = lines_of(&chars);
    if line < ls.len() {
        assert(views(ls@)[line as int] == ls@[line as int]@);
        text_of(&ls[line])
    } else {
        String::new()
    }
}

/// Whether a path names an `.http` file.
pub fn is_http_path(path: &str) -> (b: bool)
    ensures
        b == names_http_file(path@),
{
    has_suffix(&chars_of(path), &chars_of(".http"))
}

/// The suggestions offered at a cursor on the line `line_text`.
pub fn completions_for(line_text: &str, character: u32) -> (items: Vec<Completion>)
    ensures
        completion_views(items@) == offered(line_text@, character),
{
    if character == 0 || is_method_position(line_text) {
        method_completions()
    } else {
        header_completions()
    }
}

/// What completion answers for the document at `path`, whose text is
/// `document` where the document is known, at a cursor on line `line`,
/// counted from 0, and column `character`.
pub fn completion(path: &str, document: Option<&str>, line: usize, character: u32) -> (r: Option<
    Vec<Completion>,
>)
    ensures
        match r {
            Some(items) => completed(
                path@,
                match document {
                    Some(text) => Some(text@),
                    None => None,
                },
                line as int,
                character,
            ) == Some(completion_views(items@)),
            None => completed(
                path@,
                match document {
                    Some(text) => Some(text@),
                    None => None,
                },
                line as int,
                character,
            ) is None,
        },
{
    if !is_http_path(path) {
        return None;
    }
    let line_text = match document {
        Some(text) => line_at(text, line),
        None => String::new(),
    };
    Some(completions_for(line_text.as_str(), character))
}

} // verus!
