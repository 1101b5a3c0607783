//! The simple request path: one call carries verb, target, body and headers,
//! and one response comes back.

use vstd::prelude::*;
use vstd::string::*;
use crate::codec::{decode_headers, decode_text};
use crate::error::Error;
use crate::request::{Method, PendingRequest, RequestView};
use crate::text::text_view;

verus! {

/// A text argument of the host, where the empty text stands for "none".
pub open spec fn optional_text(text: Seq<char>) -> Option<Seq<char>> {
    if text.len() == 0 {
        None
    } else {
        Some(text)
    }
}

/// Takes the four text arguments of a request as the host passes them and
/// returns owned values: verb and target as they are, body and headers as
/// `None` where the host passed the empty text.
pub fn sanitize_args(method: &str, url: &str, body: &str, headers: &str) -> (args: (
    String,
    String,
    Option<String>,
    Option<String>,
))
    ensures
        args.0@ == method@,
        args.1@ == url@,
        text_view(args.2) == optional_text(body@),
        text_view(args.3) == optional_text(headers@),
{
    let method = method.to_owned();
    let url = url.to_owned();

    let body = if !body.is_empty() {
        Some(body.to_owned())
    } else {
        None
    };

    let headers = if !headers.is_empty() {
        Some(headers.to_owned())
    } else {
        None
    };

    (method, url, body, headers)
}

/// The request that the four arguments describe: the verb read with its
/// fallback, the body attached where there is one, then the decoded headers
/// added where there are any. A header payload that does not decode makes
/// the whole request fail with the decoder's error.
pub open spec fn described_request(
    method: Seq<char>,
    url: Seq<char>,
    body: Option<Seq<char>>,
    headers: Option<Seq<char>>,
) -> Result<RequestView, Error> {
    let bare = RequestView::bare(Method::from_word(method), url);
    let with_body = match body {
        Some(text) => bare.with_body(text),
        None => bare,
    };
    match headers {
        None => Ok(with_body),
        Some(payload) => match decode_text(payload) {
            Ok(fields) => Ok(with_body.with_headers(fields)),
            Err(fault) => Err(fault),
        },
    }
}

/// A prepared request, or the reason why none could be prepared, as plain
/// values.
pub open spec fn prepared_view(prepared: Result<PendingRequest, Error>) -> Result<
    RequestView,
    Error,
> {
    match prepared {
        Ok(request) => Ok(request@),
        Err(fault) => Err(fault),
    }
}

/// Prepares the request that is to be submitted. Sending it and reading the
/// response are the caller's part; [`crate::response::create_response`]
/// then builds what the host is shown.
pub fn submit_request(
    method: String,
    url: String,
    body: Option<String>,
    headers: Option<String>,
) -> (prepared: Result<PendingRequest, Error>)
    ensures
        prepared_view(prepared) == described_request(
            method@,
            url@,
            text_view(body),
            text_view(headers),
        ),
{
    let mut request = PendingRequest::new(method.as_str(), url.as_str());

    if let Some(body) = body {
        request.attach_body(body.as_str());
    }

    if let Some(headers) = headers {
        match decode_headers(headers.as_str()) {
            Ok(fields) => {
                request.add_headers(fields);
            },
            Err(fault) => {
                return Err(fault);
            },
        }
    }

    Ok(request)
}

/// The text that identifies this program to servers: the package name, a
/// slash, and the package version.
pub fn user_agent(name: &str, version: &str) -> (agent: String)
    ensures
        agent@ == name@ + "/"@ + version@,
{
    let mut agent = name.to_owned();
    agent.append("/");
    agent.append(version);
    agent
}

} // verus!
