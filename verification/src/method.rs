//! Request methods.

use vstd::prelude::*;
use crate::text::str_eq;

verus! {

/// The request methods the router tells apart.
#[derive(Clone, Copy, Debug, PartialEq, Eq, Structural)]
pub enum HttpMethod {
    Get,
    Head,
    Post,
    Put,
    Delete,
    Connect,
    Options,
    Trace,
    Patch,
}

/// The method that an upper-case token names, if it names one.
pub open spec fn method_named(name: Seq<char>) -> Option<HttpMethod> {
    if name == "GET"@ {
        Some(HttpMethod::Get)
    } else if name == "HEAD"@ {
        Some(HttpMethod::Head)
    } else if name == "POST"@ {
        Some(HttpMethod::Post)
    } else if name == "PUT"@ {
        Some(HttpMethod::Put)
    } else if name == "DELETE"@ {
        Some(HttpMethod::Delete)
    } else if name == "CONNECT"@ {
        Some(HttpMethod::Connect)
    } else if name == "OPTIONS"@ {
        Some(HttpMethod::Options)
    } else if name == "TRACE"@ {
        Some(HttpMethod::Trace)
    } else if name == "PATCH"@ {
        Some(HttpMethod::Patch)
    } else {
        None
    }
}

/// The token that names a method.
pub open spec fn method_name(method: HttpMethod) -> Seq<char> {
    match method {
        HttpMethod::Get => "GET"@,
        HttpMethod::Head => "HEAD"@,
        HttpMethod::Post => "POST"@,
        HttpMethod::Put => "PUT"@,
        HttpMethod::Delete => "DELETE"@,
        HttpMethod::Connect => "CONNECT"@,
        HttpMethod::Options => "OPTIONS"@,
        HttpMethod::Trace => "TRACE"@,
        HttpMethod::Patch => "PATCH"@,
    }
}

/// Reading a method's own token gives the method back.
pub proof fn lemma_method_name_roundtrip(method: HttpMethod)
    ensures
        method_named(method_name(method)) == Some(method),
{
    reveal_strlit("GET");
    reveal_strlit("HEAD");
    reveal_strlit("POST");
    reveal_strlit("PUT");
    reveal_strlit("DELETE");
    reveal_strlit("CONNECT");
    reveal_strlit("OPTIONS");
    reveal_strlit("TRACE");
    reveal_strlit("PATCH");
    assert("GET"@.len() == 3 && "PUT"@.len() == 3 && "HEAD"@.len() == 4 && "POST"@.len() == 4);
    assert("GET"@[0] == 'G' && "PUT"@[0] == 'P');
    assert("HEAD"@[0] == 'H' && "POST"@[0] == 'P');
    assert("DELETE"@.len() == 6 && "CONNECT"@.len() == 7 && "OPTIONS"@.len() == 7);
    assert("CONNECT"@[0] == 'C' && "OPTIONS"@[0] == 'O');
    assert("TRACE"@.len() == 5 && "PATCH"@.len() == 5);
    assert("TRACE"@[0] == 'T' && "PATCH"@[0] == 'P');
}

impl HttpMethod {
    /// Reads a method from its upper-case token; any other text names no
    /// method.
    pub fn from_name(name: &str) -> (out: Option<HttpMethod>)
        ensures
            out == method_named(name@),
    {
        if str_eq(name, "GET") {
            Some(HttpMethod::Get)
        } else if str_eq(name, "HEAD") {
            Some(HttpMethod::Head)
        } else if str_eq(name, "POST") {
            Some(HttpMethod::Post)
        } else if str_eq(name, "PUT") {
            Some(HttpMethod::Put)
        } else if str_eq(name, "DELETE") {
            Some(HttpMethod::Delete)
        } else if str_eq(name, "CONNECT") {
            Some(HttpMethod::Connect)
        } else if str_eq(name, "OPTIONS") {
            Some(HttpMethod::Options)
        } else if str_eq(name, "TRACE") {
            Some(HttpMethod::Trace)
        } else if str_eq(name, "PATCH") {
            Some(HttpMethod::Patch)
        } else {
            None
        }
    }

    /// The upper-case token of the method.
    pub fn name(&self) -> (out: &'static str)
        ensures
            out@ == method_name(*self),
    {
        match self {
            HttpMethod::Get => "GET",
            HttpMethod::Head => "HEAD",
            HttpMethod::Post => "POST",
            HttpMethod::Put => "PUT",
            HttpMethod::Delete => "DELETE",
            HttpMethod::Connect => "CONNECT",
            HttpMethod::Options => "OPTIONS",
            HttpMethod::Trace => "TRACE",
            HttpMethod::Patch => "PATCH",
        }
    }
}

} // verus!
