//! The request descriptor that is built up before a launch.

use vstd::prelude::*;
use vstd::string::*;
use crate::text::str_equal;

verus! {

/// The verb of a request.
#[derive(Clone, Copy, Debug, PartialEq, Eq, Structural)]
pub enum Method {
    Get,
    Post,
    Put,
    Patch,
    Delete,
    Head,
}

impl Method {
    /// The verb that a host-supplied word selects. The five words below are
    /// recognised as written, in lower case; every other text selects `Get`.
    pub open spec fn from_word(word: Seq<char>) -> Method {
        if word == "post"@ {
            Method::Post
        } else if word == "put"@ {
            Method::Put
        } else if word == "patch"@ {
            Method::Patch
        } else if word == "delete"@ {
            Method::Delete
        } else if word == "head"@ {
            Method::Head
        } else {
            Method::Get
        }
    }

    /// The verb as it is written on the wire.
    pub open spec fn wire_name(self) -> Seq<char> {
        match self {
            Method::Get => "GET"@,
            Method::Post => "POST"@,
            Method::Put => "PUT"@,
            Method::Patch => "PATCH"@,
            Method::Delete => "DELETE"@,
            Method::Head => "HEAD"@,
        }
    }

    /// Reads a verb from a host-supplied word, falling back to `Get` without
    /// complaint when the word is not one of the known ones.
    pub fn parse(word: &str) -> (method: Method)
        ensures
            method == Method::from_word(word@),
    {
        if str_equal(word, "post") {
            Method::Post
        } else if str_equal(word, "put") {
            Method::Put
        } else if str_equal(word, "patch") {
            Method::Patch
        } else if str_equal(word, "delete") {
            Method::Delete
        } else if str_equal(word, "head") {
            Method::Head
        } else {
            Method::Get
        }
    }

    /// The verb as it is written on the wire.
    pub fn as_str(&self) -> (name: &'static str)
        ensures
            name@ == self.wire_name(),
    {
        match self {
            Method::Get => "GET",
            Method::Post => "POST",
            Method::Put => "PUT",
            Method::Patch => "PATCH",
            Method::Delete => "DELETE",
            Method::Head => "HEAD",
        }
    }
}

/// One header field: a name in canonical form and its value.
#[derive(Debug)]
pub struct Header {
    pub name: String,
    pub value: String,
}

impl View for Header {
    type V = (Seq<char>, Seq<char>);

    open spec fn view(&self) -> (Seq<char>, Seq<char>) {
        (self.name@, self.value@)
    }
}

impl Clone for Header {
    fn clone(&self) -> (copy: Self)
        ensures
            copy@ == self@,
    {
        Header { name: self.name.clone(), value: self.value.clone() }
    }
}

/// The fields of a header list, each as a pair of name and value.
pub open spec fn header_views(headers: Seq<Header>) -> Seq<(Seq<char>, Seq<char>)> {
    headers.map_values(|h: Header| h@)
}

/// What a request descriptor holds, as plain mathematical values.
pub struct RequestView {
    pub method: Method,
    pub url: Seq<char>,
    pub headers: Seq<(Seq<char>, Seq<char>)>,
    pub body: Option<Seq<u8>>,
}

/// A request that has been described but not sent.
#[derive(Debug)]
pub struct PendingRequest {
    pub method: Method,
    pub url: String,
    pub headers: Vec<Header>,
    pub body: Option<Vec<u8>>,
}

impl View for PendingRequest {
    type V = RequestView;

    open spec fn view(&self) -> RequestView {
        RequestView {
            method: self.method,
            url: self.url@,
            headers: header_views(self.headers@),
            body: match self.body {
                Some(bytes) => Some(bytes@),
                None => None,
            },
        }
    }
}

impl RequestView {
    /// Whether every header field of the descriptor can travel as it is.
    pub open spec fn wf(self) -> bool {
        crate::codec::all_valid_fields(self.headers)
    }

    /// The descriptor of a request that has only a verb and a target.
    pub open spec fn bare(method: Method, url: Seq<char>) -> RequestView {
        RequestView { method, url, headers: Seq::empty(), body: None }
    }

    /// This descriptor with `more` header fields added after those it has.
    pub open spec fn with_headers(self, more: Seq<(Seq<char>, Seq<char>)>) -> RequestView {
        RequestView { headers: self.headers + more, ..self }
    }

    /// This descriptor with its body replaced by the bytes of `text`.
    pub open spec fn with_body(self, text: Seq<char>) -> RequestView {
        RequestView { body: Some(vstd::utf8::encode_utf8(text)), ..self }
    }
}

impl PendingRequest {
    /// Describes a request for `url`. The verb is read from `method` with
    /// the silent fallback of [`Method::parse`].
    pub fn new(method: &str, url: &str) -> (request: PendingRequest)
        ensures
            request@ == RequestView::bare(Method::from_word(method@), url@),
            request@.wf(),
    {
        let request = PendingRequest {
            method: Method::parse(method),
            url: url.to_owned(),
            headers: Vec::new(),
            body: None,
        };
        assert(header_views(request.headers@) =~= Seq::empty());
        request
    }

    /// Replaces the body by the raw bytes of `text`. Nothing else changes;
    /// in particular no content type is inferred.
    pub fn attach_body(&mut self, text: &str)
        ensures
            final(self)@ == old(self)@.with_body(text@),
    {
        self.body = Some(text.as_bytes_vec());
    }

    /// Adds `more` header fields after those already present. Fields are
    /// taken as they are: a descriptor stays well formed if the added
    /// fields can travel as they are.
    pub fn add_headers(&mut self, more: Vec<Header>)
        ensures
            final(self)@ == old(self)@.with_headers(header_views(more@)),
            old(self)@.wf() && crate::codec::all_valid_fields(header_views(more@))
                ==> final(self)@.wf(),
    {
        let ghost added = more@;
        let mut more = more;
        self.headers.append(&mut more);
        assert(header_views(self.headers@) =~= header_views(old(self).headers@) + header_views(
            added,
        ));
    }
}

} // verus!
