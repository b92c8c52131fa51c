//! The closed set of HTTP request methods and its textual form.

use vstd::prelude::*;
use crate::text::text_eq;

verus! {

/// One of the nine standard HTTP request methods.
#[derive(Clone, Copy, Debug, PartialEq, Eq, Structural)]
pub enum Method {
    Get,
    Post,
    Put,
    Delete,
    Head,
    Options,
    Connect,
    Patch,
    Trace,
}

/// The text handed to [`Method::parse`] names none of the nine methods.
#[derive(Clone, Copy, Debug, PartialEq, Eq, Structural)]
pub struct InvalidMethod;

/// Every method, in the order in which they are offered to a user.
pub const METHODS: [Method; 9] = [
    Method::Get,
    Method::Post,
    Method::Put,
    Method::Delete,
    Method::Head,
    Method::Options,
    Method::Connect,
    Method::Patch,
    Method::Trace,
];

/// The names of [`METHODS`], position by position.
pub const METHODS_STRING: [&'static str; 9] = [
    "GET", "POST", "PUT", "DELETE", "HEAD", "OPTIONS", "CONNECT", "PATCH", "TRACE",
];

/// The method names as one line of help text.
pub const ALL_METHODS_AS_STRING: &'static str =
    "GET, POST, PUT, DELETE, HEAD, OPTIONS, CONNECT, PATCH, TRACE";

/// The method that `text` names, if it names one. Names are upper case.
pub open spec fn method_named(text: Seq<char>) -> Option<Method> {
    if text == "GET"@ {
        Some(Method::Get)
    } else if text == "POST"@ {
        Some(Method::Post)
    } else if text == "PUT"@ {
        Some(Method::Put)
    } else if text == "DELETE"@ {
        Some(Method::Delete)
    } else if text == "HEAD"@ {
        Some(Method::Head)
    } else if text == "OPTIONS"@ {
        Some(Method::Options)
    } else if text == "CONNECT"@ {
        Some(Method::Connect)
    } else if text == "PATCH"@ {
        Some(Method::Patch)
    } else if text == "TRACE"@ {
        Some(Method::Trace)
    } else {
        None
    }
}

impl Method {
    /// The canonical upper-case name.
    pub open spec fn name(self) -> Seq<char> {
        match self {
            Method::Get => "GET"@,
            Method::Post => "POST"@,
            Method::Put => "PUT"@,
            Method::Delete => "DELETE"@,
            Method::Head => "HEAD"@,
            Method::Options => "OPTIONS"@,
            Method::Connect => "CONNECT"@,
            Method::Patch => "PATCH"@,
            Method::Trace => "TRACE"@,
        }
    }

    /// The canonical upper-case name.
    pub fn as_str(self) -> (s: &'static str)
        ensures
            s@ == self.name(),
    {
        match self {
            Method::Get => "GET",
            Method::Post => "POST",
            Method::Put => "PUT",
            Method::Delete => "DELETE",
            Method::Head => "HEAD",
            Method::Options => "OPTIONS",
            Method::Connect => "CONNECT",
            Method::Patch => "PATCH",
            Method::Trace => "TRACE",
        }
    }

    /// Reads a method from free text. Exactly the nine canonical names are
    /// accepted; anything else, lower case included, is an error.
    pub fn parse(text: &str) -> (res: Result<Method, InvalidMethod>)
        ensures
            res is Ok <==> method_named(text@) is Some,
            res matches Ok(method) ==> method_named(text@) == Some(method),
    {
        if text_eq(text, "GET") {
            Ok(Method::Get)
        } else if text_eq(text, "POST") {
            Ok(Method::Post)
        } else if text_eq(text, "PUT") {
            Ok(Method::Put)
        } else if text_eq(text, "DELETE") {
            Ok(Method::Delete)
        } else if text_eq(text, "HEAD") {
            Ok(Method::Head)
        } else if text_eq(text, "OPTIONS") {
            Ok(Method::Options)
        } else if text_eq(text, "CONNECT") {
            Ok(Method::Connect)
        } else if text_eq(text, "PATCH") {
            Ok(Method::Patch)
        } else if text_eq(text, "TRACE") {
            Ok(Method::Trace)
        } else {
            Err(InvalidMethod)
        }
    }
}

/// Reading a method's own name gives the method back.
pub proof fn lemma_parse_of_name(m: Method)
    ensures
        method_named(m.name()) == Some(m),
{
    reveal_strlit("GET");
    reveal_strlit("POST");
    reveal_strlit("PUT");
    reveal_strlit("DELETE");
    reveal_strlit("HEAD");
    reveal_strlit("OPTIONS");
    reveal_strlit("CONNECT");
    reveal_strlit("PATCH");
    reveal_strlit("TRACE");
    assert("POST"@[1] == 'O' && "PUT"@[1] == 'U' && "PATCH"@[1] == 'A');
    assert("DELETE"@[0] == 'D' && "HEAD"@[0] == 'H' && "OPTIONS"@[0] == 'O');
    assert("CONNECT"@[0] == 'C' && "TRACE"@[0] == 'T' && "GET"@[0] == 'G');
}

/// Only a method's own name reads as that method.
pub proof fn lemma_name_of_parse(text: Seq<char>, m: Method)
    requires
        method_named(text) == Some(m),
    ensures
        text == m.name(),
{
}

/// The two listings agree: position by position, the second holds the name
/// of the method that the first holds.
pub proof fn lemma_listings_agree()
    ensures
        forall|i: int| 0 <= i < 9 ==> (#[trigger] METHODS_STRING@[i])@ == METHODS@[i].name(),
{
}

} // verus!
