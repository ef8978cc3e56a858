//! The plain data model of one wire exchange: method, request, response.
//!
//! Requests and responses are ephemeral: a request is constructed per call
//! and not retained, a response is owned by the caller once returned.

use vstd::prelude::*;

verus! {

/// The HTTP verbs the transport sends.
#[derive(Clone, Copy, Debug, PartialEq, Eq, Structural)]
pub enum Method {
    Get,
    Post,
    Put,
    Delete,
    Head,
}

/// One logical request: what an endpoint builder hands the dispatcher.
/// The query, if present, is already serialized by the parameter codec;
/// the body, if present, is already serialized to bytes by the caller.
#[derive(Clone, Debug)]
pub struct Request {
    pub method: Method,
    /// Path relative to a node's address.
    pub path: String,
    pub headers: Vec<(String, String)>,
    pub query: Option<String>,
    pub body: Option<Vec<u8>>,
}

/// One completed wire response, returned to the caller as-is: interpreting
/// the status is the caller's responsibility, not the dispatcher's.
#[derive(Clone, Debug)]
pub struct Response {
    pub status: u16,
    pub headers: Vec<(String, String)>,
    pub body: Vec<u8>,
}

/// The absolute URL of one attempt: the selected node's address, the
/// relative path, and the serialized query string, if any, after `?`.
pub open spec fn absolute_url_spec(
    address: Seq<char>,
    path: Seq<char>,
    query: Option<Seq<char>>,
) -> Seq<char> {
    match query {
        Option::None => address + path,
        Option::Some(q) => address + path + seq!['?'] + q,
    }
}

/// Builds the absolute URL one attempt is addressed to.
pub fn absolute_url(address: &String, path: &String, query: &Option<String>) -> (r: String)
    ensures
        r@ == absolute_url_spec(
            address@,
            path@,
            match query {
                Option::None => Option::None,
                Option::Some(q) => Option::Some(q@),
            },
        ),
{
    let mut out = address.clone();
    out.append(path.as_str());
    match query {
        Option::None => {},
        Option::Some(q) => {
            proof {
                reveal_strlit("?");
                assert("?"@ =~= seq!['?']);
            }
            out.append("?");
            out.append(q.as_str());
        },
    }
    proof {
        match query {
            Option::None => {
                assert(out@ =~= address@ + path@);
            },
            Option::Some(q) => {
                assert(out@ =~= address@ + path@ + seq!['?'] + q@);
            },
        }
    }
    out
}

} // verus!
