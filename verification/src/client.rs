//! The client's state and the requests it builds.

use crate::params::Params;
use crate::util::{encode_params, encoded_params};
use vstd::prelude::*;
use vstd::string::*;

verus! {

/// The address that every path is joined to. It does not end in `/`; the
/// paths begin with one.
pub const BASE_URL: &'static str = "https://api.nature.global/1";

/// The HTTP methods that the service is called with.
#[derive(Clone, Copy, PartialEq, Eq, Debug)]
pub enum Method {
    Get,
    Post,
}

/// One header line of a request.
#[derive(Clone, PartialEq, Eq, Debug)]
pub struct Header {
    pub name: String,
    pub value: String,
}

/// A request as the transport is to send it. An empty body means that none
/// is sent.
#[derive(Clone, PartialEq, Eq, Debug)]
pub struct Request {
    pub method: Method,
    pub url: String,
    pub headers: Vec<Header>,
    pub body: String,
}

/// A request as plain text: the headers as pairs of name and value.
pub struct RequestView {
    pub method: Method,
    pub url: Seq<char>,
    pub headers: Seq<(Seq<char>, Seq<char>)>,
    pub body: Seq<char>,
}

impl View for Request {
    type V = RequestView;

    open spec fn view(&self) -> RequestView {
        RequestView {
            method: self.method,
            url: self.url@,
            headers: Seq::new(
                self.headers@.len(),
                |i: int| (self.headers@[i].name@, self.headers@[i].value@),
            ),
            body: self.body@,
        }
    }
}

/// The headers of a request: the bearer token, the accepted media type and,
/// where parameters are sent, the media type of the body.
pub open spec fn request_headers(token: Seq<char>, with_params: bool) -> Seq<
    (Seq<char>, Seq<char>),
> {
    let fixed = seq![
        ("Authorization"@, "Bearer "@ + token),
        ("Accept"@, "application/json"@),
    ];
    if with_params {
        fixed.push(("Content-Type"@, "application/x-www-form-urlencoded"@))
    } else {
        fixed
    }
}

/// The request that a client with the given token makes of a method, a path
/// and a list of parameters.
pub open spec fn request_of(
    token: Seq<char>,
    method: Method,
    path: Seq<char>,
    entries: Seq<(Seq<char>, Seq<char>)>,
) -> RequestView {
    RequestView {
        method,
        url: BASE_URL@ + path,
        headers: request_headers(token, entries.len() > 0),
        body: encoded_params(entries),
    }
}

/// Joined to a path that begins with `/`, the base URL leaves exactly one `/`
/// between the two: it does not end in one itself.
pub proof fn lemma_one_separator(path: Seq<char>)
    requires
        path.len() > 0,
        path[0] == '/',
    ensures
        BASE_URL@.len() > 0,
        (BASE_URL@ + path)[BASE_URL@.len() - 1] != '/',
        (BASE_URL@ + path)[BASE_URL@.len() as int] == '/',
{
    reveal_strlit("https://api.nature.global/1");
}

/// The access token and the address of the service. Neither changes after
/// the client is made.
pub struct Client {
    access_token: String,
    base_url: &'static str,
}

impl Client {
    #[verifier::type_invariant]
    spec fn fixed_base(&self) -> bool {
        self.base_url@ == BASE_URL@
    }

    /// The token that the client authenticates with.
    pub closed spec fn token(&self) -> Seq<char> {
        self.access_token@
    }

    /// A client that authenticates with `access_token`.
    pub fn new(access_token: &str) -> (r: Client)
        ensures
            r.token() == access_token@,
    {
        Client { access_token: access_token.to_owned(), base_url: BASE_URL }
    }

    /// The request for `path` with `params`, authenticated with the client's
    /// token. The parameters make the body, percent-encoded; without
    /// parameters the body is empty and no media type is named for it.
    pub fn request(&self, method: Method, path: &str, params: &Params) -> (r: Request)
        ensures
            r@ == request_of(self.token(), method, path@, params@),
    {
        proof {
            use_type_invariant(self);
        }
        let mut url = self.base_url.to_owned();
        url.append(path);
        let mut bearer = "Bearer ".to_owned();
        bearer.append(self.access_token.as_str());
        let mut headers: Vec<Header> = Vec::new();
        headers.push(Header { name: "Authorization".to_owned(), value: bearer });
        headers.push(Header { name: "Accept".to_owned(), value: "application/json".to_owned() });
        if !params.is_empty() {
            headers.push(
                Header {
                    name: "Content-Type".to_owned(),
                    value: "application/x-www-form-urlencoded".to_owned(),
                },
            );
        }
        let body = encode_params(params);
        let r = Request { method, url, headers, body };
        assert(r@.headers =~= request_headers(self.token(), params@.len() > 0));
        r
    }
}

} // verus!
