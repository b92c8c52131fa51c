//! Reading a request from command-line arguments.

use vstd::prelude::*;
use crate::header::Field;
use crate::query::{set_param, with_param};
use crate::method::{method_named, InvalidMethod, Method};
use crate::request::{RequestSpec, RequestSpecView};
use crate::text::{chars_of, trim, trimmed};

verus! {

/// Where, at or after `from`, a text first holds a colon followed by a
/// space.
pub open spec fn find_separator(text: Seq<char>, from: int) -> Option<int>
    decreases text.len() - from,
{
    if from < 0 || from + 1 >= text.len() {
        None
    } else if text[from] == ':' && text[from + 1] == ' ' {
        Some(from)
    } else {
        find_separator(text, from + 1)
    }
}

/// An argument of the form `name: value`, cut at its first colon and space.
/// Neither side is trimmed. A text without that separator is no pair.
pub open spec fn pair_of(text: Seq<char>) -> Option<Field> {
    match find_separator(text, 0) {
        Some(at) => Some((text.take(at), text.skip(at + 2))),
        None => None,
    }
}

/// Cuts an argument of the form `name: value` in two.
pub fn split_pair(text: &str) -> (res: Option<(String, String)>)
    ensures
        res.deep_view() == pair_of(text@),
{
    let chars = chars_of(text);
    let n = chars.len();
    if n < 2 {
        return None;
    }
    let mut at: usize = 0;
    while at < n - 1
        invariant
            n >= 2,
            n == chars.len(),
            n == text@.len(),
            chars@ == text@,
            at <= n,
            find_separator(text@, 0) == find_separator(text@, at as int),
        decreases n - at,
    {
        if chars[at] == ':' && chars[at + 1] == ' ' {
            let name = String::from_str(text.substring_char(0, at));
            let value = String::from_str(text.substring_char(at + 2, n));
            return Some((name, value));
        }
        at += 1;
    }
    None
}

/// The query parameters that a list of arguments gives: each argument of
/// the form `name: value` sets a parameter, in order; any other argument is
/// passed over.
pub open spec fn query_of(args: Seq<Seq<char>>) -> Seq<Field>
    decreases args.len(),
{
    if args.len() == 0 {
        Seq::<Field>::empty()
    } else {
        let before = query_of(args.drop_last());
        match pair_of(args.last()) {
            Some(pair) => with_param(before, pair.0, pair.1),
            None => before,
        }
    }
}

/// The header fields that a list of arguments gives: each argument of the
/// form `name: value` adds a field, its name and its value trimmed, in
/// order; any other argument is passed over. A name that repeats keeps all
/// its values.
pub open spec fn headers_of(args: Seq<Seq<char>>) -> Seq<Field>
    decreases args.len(),
{
    if args.len() == 0 {
        Seq::<Field>::empty()
    } else {
        let before = headers_of(args.drop_last());
        match pair_of(args.last()) {
            Some(pair) => before.push((trimmed(pair.0), trimmed(pair.1))),
            None => before,
        }
    }
}

/// Reads query parameters from arguments.
pub fn collect_query(args: &Vec<String>) -> (res: Vec<(String, String)>)
    ensures
        res.deep_view() == query_of(args.deep_view()),
{
    let ghost view = args.deep_view();
    let mut out: Vec<(String, String)> = Vec::new();
    let mut i: usize = 0;
    assert(out.deep_view() =~= query_of(view.take(0)));
    while i < args.len()
        invariant
            i <= args.len(),
            view == args.deep_view(),
            out.deep_view() == query_of(view.take(i as int)),
        decreases args.len() - i,
    {
        proof {
            assert(view[i as int] == args@[i as int]@);
            assert(view.take(i + 1).drop_last() =~= view.take(i as int));
            assert(view.take(i + 1).last() == view[i as int]);
        }
        match split_pair(args[i].as_str()) {
            Some(pair) => {
                set_param(&mut out, pair.0, pair.1);
            },
            None => {},
        }
        i += 1;
    }
    assert(view.take(args.len() as int) =~= view);
    out
}

/// Reads header fields from arguments.
pub fn collect_headers(args: &Vec<String>) -> (res: Vec<(String, String)>)
    ensures
        res.deep_view() == headers_of(args.deep_view()),
{
    let ghost view = args.deep_view();
    let mut out: Vec<(String, String)> = Vec::new();
    let mut i: usize = 0;
    assert(out.deep_view() =~= headers_of(view.take(0)));
    while i < args.len()
        invariant
            i <= args.len(),
            view == args.deep_view(),
            out.deep_view() == headers_of(view.take(i as int)),
        decreases args.len() - i,
    {
        let ghost before = out.deep_view();
        proof {
            assert(view[i as int] == args@[i as int]@);
            assert(view.take(i + 1).drop_last() =~= view.take(i as int));
            assert(view.take(i + 1).last() == view[i as int]);
        }
        match split_pair(args[i].as_str()) {
            Some(pair) => {
                let name = trim(pair.0.as_str());
                let value = trim(pair.1.as_str());
                out.push((name, value));
                assert(out.deep_view() =~= before.push((trimmed(pair.0@), trimmed(pair.1@))));
            },
            None => {},
        }
        i += 1;
    }
    assert(view.take(args.len() as int) =~= view);
    out
}

/// The arguments of one run, as text.
#[derive(Debug)]
pub struct CliArgs {
    /// The address.
    pub url: String,
    /// The method, by name.
    pub method: String,
    /// Query parameters, each as `name: value`.
    pub query: Vec<String>,
    /// Header fields, each as `name: value`.
    pub headers: Vec<String>,
    /// The payload, where one was given.
    pub body: Option<String>,
}

/// The request that a run's arguments describe, where the method is one of
/// the nine: the query with the last value of each key, every header field
/// that was given, and the text of the payload as bytes, or none.
pub open spec fn request_of(
    method: Method,
    url: Seq<char>,
    query: Seq<Seq<char>>,
    headers: Seq<Seq<char>>,
    body: Option<Seq<char>>,
) -> RequestSpecView {
    RequestSpecView {
        method,
        url,
        query: query_of(query),
        headers: headers_of(headers),
        body: match body {
            Some(text) => vstd::utf8::encode_utf8(text),
            None => Seq::<u8>::empty(),
        },
    }
}

/// Reads the description of a request from a run's arguments. Fails exactly
/// when the method is none of the nine. The address is taken as written: it
/// is checked when the request is built.
pub fn request_from_args(args: &CliArgs) -> (res: Result<RequestSpec, InvalidMethod>)
    ensures
        res is Ok <==> method_named(args.method@) is Some,
        res matches Ok(spec) ==> spec@ == request_of(
            method_named(args.method@)->0,
            args.url@,
            args.query.deep_view(),
            args.headers.deep_view(),
            args.body.deep_view(),
        ),
{
    let method = match Method::parse(args.method.as_str()) {
        Ok(method) => method,
        Err(e) => {
            return Err(e);
        },
    };
    let query = collect_query(&args.query);
    let headers = collect_headers(&args.headers);
    let body = match &args.body {
        Some(text) => text.as_str().as_bytes_vec(),
        None => Vec::new(),
    };
    Ok(RequestSpec { method, url: args.url.clone(), query, headers, body })
}

} // verus!
