//! What comes back from a launched request.

use vstd::prelude::*;
use crate::codec::{bytes_as_chars, header_value_text, is_visible_text};
use crate::error::Error;
use crate::request::{header_views, Header};

verus! {

/// One header field of a response as the transport delivered it: the name in
/// canonical form and the value as raw bytes.
#[derive(Debug)]
pub struct RawHeader {
    pub name: String,
    pub value: Vec<u8>,
}

impl View for RawHeader {
    type V = (Seq<char>, Seq<u8>);

    open spec fn view(&self) -> (Seq<char>, Seq<u8>) {
        (self.name@, self.value@)
    }
}

/// The fields of a raw header list as plain values.
pub open spec fn raw_views(headers: Seq<RawHeader>) -> Seq<(Seq<char>, Seq<u8>)> {
    headers.map_values(|h: RawHeader| h@)
}

/// The header mapping that a list of fields stands for. Where a name occurs
/// more than once, the last field with that name decides.
pub open spec fn field_map(fields: Seq<(Seq<char>, Seq<char>)>) -> Map<Seq<char>, Seq<char>>
    decreases fields.len(),
{
    if fields.len() == 0 {
        Map::empty()
    } else {
        field_map(fields.drop_last()).insert(fields.last().0, fields.last().1)
    }
}

/// The header mapping shown for the raw fields of a response: the fields
/// whose value is printable text, the last of each name deciding. Fields
/// with any other value are left out.
pub open spec fn shown_headers(raw: Seq<(Seq<char>, Seq<u8>)>) -> Map<Seq<char>, Seq<char>>
    decreases raw.len(),
{
    if raw.len() == 0 {
        Map::empty()
    } else if is_visible_text(raw.last().1) {
        shown_headers(raw.drop_last()).insert(raw.last().0, bytes_as_chars(raw.last().1))
    } else {
        shown_headers(raw.drop_last())
    }
}

/// A name is shown exactly when some raw field of that name has a value
/// that is printable text, and it is shown with the value of the last such
/// field.
pub proof fn lemma_shown_headers_characterised(raw: Seq<(Seq<char>, Seq<u8>)>, name: Seq<char>)
    ensures
        shown_headers(raw).contains_key(name) <==> exists|i: int|
            0 <= i < raw.len() && (#[trigger] raw[i]).0 == name && is_visible_text(raw[i].1),
        forall|i: int|
            {
                &&& 0 <= i < raw.len()
                &&& (#[trigger] raw[i]).0 == name
                &&& is_visible_text(raw[i].1)
                &&& forall|j: int|
                    i < j < raw.len() ==> !((#[trigger] raw[j]).0 == name && is_visible_text(
                        raw[j].1,
                    ))
            } ==> shown_headers(raw)[name] == bytes_as_chars(raw[i].1),
    decreases raw.len(),
{
    if raw.len() > 0 {
        let front = raw.drop_last();
        let last = raw.len() - 1;
        lemma_shown_headers_characterised(front, name);
        assert forall|i: int| 0 <= i < front.len() implies front[i] == raw[i] by {}
        if shown_headers(raw).contains_key(name) {
            if raw[last].0 == name && is_visible_text(raw[last].1) {
            } else {
                let at = choose|i: int|
                    0 <= i < front.len() && (#[trigger] front[i]).0 == name && is_visible_text(
                        front[i].1,
                    );
                assert(raw[at] == front[at]);
            }
        }
        if exists|i: int|
            0 <= i < raw.len() && (#[trigger] raw[i]).0 == name && is_visible_text(raw[i].1) {
            let at = choose|i: int|
                0 <= i < raw.len() && (#[trigger] raw[i]).0 == name && is_visible_text(raw[i].1);
            if at < last {
                assert(front[at] == raw[at]);
            }
        }
        assert forall|i: int|
            {
                &&& 0 <= i < raw.len()
                &&& (#[trigger] raw[i]).0 == name
                &&& is_visible_text(raw[i].1)
                &&& forall|j: int|
                    i < j < raw.len() ==> !((#[trigger] raw[j]).0 == name && is_visible_text(
                        raw[j].1,
                    ))
            } implies shown_headers(raw)[name] == bytes_as_chars(raw[i].1) by {
            if i < last {
                assert(front[i] == raw[i]);
                assert(!(raw[last].0 == name && is_visible_text(raw[last].1)));
                assert forall|j: int| i < j < front.len() implies !((#[trigger] front[j]).0 == name
                    && is_visible_text(front[j].1)) by {
                    assert(front[j] == raw[j]);
                }
            }
        }
    }
}

/// Whether no two fields share a name.
pub open spec fn distinct_names(fields: Seq<(Seq<char>, Seq<char>)>) -> bool {
    forall|i: int, j: int|
        0 <= i < j < fields.len() ==> (#[trigger] fields[i]).0 != (#[trigger] fields[j]).0
}

/// A response as plain mathematical values.
pub struct ResponseView {
    pub status_code: u16,
    pub headers: Map<Seq<char>, Seq<char>>,
    pub body: Seq<char>,
}

/// A response that was received in full.
#[derive(Debug)]
pub struct Response {
    status_code: u16,
    headers: Vec<Header>,
    body: String,
}

impl View for Response {
    type V = ResponseView;

    closed spec fn view(&self) -> ResponseView {
        ResponseView {
            status_code: self.status_code,
            headers: field_map(header_views(self.headers@)),
            body: self.body@,
        }
    }
}

/// A name that is no field's name is not in the mapping.
pub proof fn lemma_absent_name(fields: Seq<(Seq<char>, Seq<char>)>, name: Seq<char>)
    requires
        forall|i: int| 0 <= i < fields.len() ==> (#[trigger] fields[i]).0 != name,
    ensures
        !field_map(fields).contains_key(name),
    decreases fields.len(),
{
    if fields.len() > 0 {
        lemma_absent_name(fields.drop_last(), name);
    }
}

/// In a list of distinct names every field is found in the mapping under its
/// name.
pub proof fn lemma_field_found(fields: Seq<(Seq<char>, Seq<char>)>, at: int)
    requires
        distinct_names(fields),
        0 <= at < fields.len(),
    ensures
        field_map(fields).contains_key(fields[at].0),
        field_map(fields)[fields[at].0] == fields[at].1,
    decreases fields.len(),
{
    if at < fields.len() - 1 {
        let front = fields.drop_last();
        assert(distinct_names(front)) by {
            assert forall|i: int, j: int| 0 <= i < j < front.len() implies (#[trigger] front[i]).0
                != (#[trigger] front[j]).0 by {
                assert(front[i] == fields[i]);
                assert(front[j] == fields[j]);
            }
        }
        assert(front[at] == fields[at]);
        lemma_field_found(front, at);
        assert(fields[at].0 != fields[fields.len() - 1].0);
    }
}

/// Replacing the value of one field in a list of distinct names is an insert
/// into the mapping.
pub proof fn lemma_replace_value(fields: Seq<(Seq<char>, Seq<char>)>, at: int, value: Seq<char>)
    requires
        distinct_names(fields),
        0 <= at < fields.len(),
    ensures
        distinct_names(fields.update(at, (fields[at].0, value))),
        field_map(fields.update(at, (fields[at].0, value))) == field_map(fields).insert(
            fields[at].0,
            value,
        ),
    decreases fields.len(),
{
    let name = fields[at].0;
    let changed = fields.update(at, (name, value));
    assert(distinct_names(changed)) by {
        assert forall|i: int, j: int| 0 <= i < j < changed.len() implies (#[trigger] changed[i]).0
            != (#[trigger] changed[j]).0 by {
            assert(changed[i].0 == fields[i].0);
            assert(changed[j].0 == fields[j].0);
        }
    }
    let front = fields.drop_last();
    if at == fields.len() - 1 {
        assert(changed.drop_last() =~= front);
        assert(field_map(changed) =~= field_map(fields).insert(name, value));
    } else {
        assert(distinct_names(front)) by {
            assert forall|i: int, j: int| 0 <= i < j < front.len() implies (#[trigger] front[i]).0
                != (#[trigger] front[j]).0 by {
                assert(front[i] == fields[i]);
                assert(front[j] == fields[j]);
            }
        }
        assert(front[at] == fields[at]);
        lemma_replace_value(front, at, value);
        assert(changed.drop_last() =~= front.update(at, (name, value)));
        assert(changed.last() == fields.last());
        assert(fields[at].0 != fields[fields.len() - 1].0);
        assert(field_map(changed) =~= field_map(fields).insert(name, value));
    }
}

impl Response {
    /// Whether no header name occurs twice in the stored list.
    pub closed spec fn wf(&self) -> bool {
        distinct_names(header_views(self.headers@))
    }

    /// The numeric status of the response.
    pub fn status_code(&self) -> (code: u16)
        ensures
            code == self@.status_code,
    {
        self.status_code
    }

    /// The body of the response as text.
    pub fn body(&self) -> (text: &str)
        ensures
            text@ == self@.body,
    {
        self.body.as_str()
    }

    /// The header fields, each name once, in the order in which the names
    /// first arrived.
    pub fn headers(&self) -> (fields: &Vec<Header>)
        requires
            self.wf(),
        ensures
            distinct_names(header_views(fields@)),
            field_map(header_views(fields@)) == self@.headers,
    {
        &self.headers
    }

    /// The value of the header called `name`, if the response has one.
    /// Names are compared in their canonical form, as written.
    pub fn header(&self, name: &str) -> (value: Option<&str>)
        requires
            self.wf(),
        ensures
            match value {
                Some(text) => self@.headers.contains_key(name@) && self@.headers[name@] == text@,
                None => !self@.headers.contains_key(name@),
            },
    {
        match find_name(&self.headers, name) {
            Some(at) => {
                proof {
                    lemma_field_found(header_views(self.headers@), at as int);
                }
                Some(self.headers[at].value.as_str())
            },
            None => {
                proof {
                    lemma_absent_name(header_views(self.headers@), name@);
                }
                None
            },
        }
    }
}

/// Where in `fields` the field called `name` stands, if there is one.
fn find_name(fields: &Vec<Header>, name: &str) -> (found: Option<usize>)
    ensures
        match found {
            Some(at) => at < fields.len() && fields@[at as int].name@ == name@,
            None => forall|i: int|
                0 <= i < fields.len() ==> (#[trigger] header_views(fields@)[i]).0 != name@,
        },
{
    let mut i: usize = 0;
    while i < fields.len()
        invariant
            i <= fields.len(),
            forall|k: int| 0 <= k < i ==> (#[trigger] header_views(fields@)[k]).0 != name@,
        decreases fields.len() - i,
    {
        if crate::text::str_equal(fields[i].name.as_str(), name) {
            return Some(i);
        }
        i += 1;
    }
    None
}

/// Builds the response that the host is shown from what the transport
/// delivered: the status, the body, and of the header fields those whose
/// value is printable text. A later field replaces an earlier one of the
/// same name.
pub fn create_response(status_code: u16, raw_headers: &Vec<RawHeader>, body: String) -> (response:
    Response)
    ensures
        response.wf(),
        response@ == (ResponseView {
            status_code,
            headers: shown_headers(raw_views(raw_headers@)),
            body: body@,
        }),
{
    let ghost raw = raw_views(raw_headers@);
    let mut headers: Vec<Header> = Vec::new();
    let mut i: usize = 0;
    assert(raw.take(0) =~= Seq::empty());
    assert(header_views(headers@) =~= Seq::empty());
    while i < raw_headers.len()
        invariant
            i <= raw_headers.len(),
            raw == raw_views(raw_headers@),
            distinct_names(header_views(headers@)),
            field_map(header_views(headers@)) == shown_headers(raw.take(i as int)),
        decreases raw_headers.len() - i,
    {
        let ghost upto = raw.take(i as int + 1);
        assert(upto.drop_last() =~= raw.take(i as int));
        assert(upto.last() == raw_headers@[i as int]@);
        let field = &raw_headers[i];
        match header_value_text(field.value.as_slice()) {
            Some(text) => {
                let ghost shown = header_views(headers@);
                match find_name(&headers, field.name.as_str()) {
                    Some(at) => {
                        proof {
                            lemma_replace_value(shown, at as int, text@);
                        }
                        headers.set(at, Header { name: field.name.clone(), value: text });
                        assert(header_views(headers@) =~= shown.update(
                            at as int,
                            (shown[at as int].0, text@),
                        ));
                    },
                    None => {
                        headers.push(Header { name: field.name.clone(), value: text });
                        assert(header_views(headers@) =~= shown.push((field.name@, text@)));
                        assert(header_views(headers@).drop_last() =~= shown);
                    },
                }
            },
            None => {},
        }
        i += 1;
    }
    assert(raw.take(i as int) =~= raw);
    Response { status_code, headers, body }
}

/// The result of a launched request as plain mathematical values.
pub enum OutcomeView {
    Success(ResponseView),
    Failure(Seq<char>),
}

/// The terminal result of a launched request: the response, or a description
/// of why the transport delivered none.
#[derive(Debug)]
pub enum Outcome {
    Success(Response),
    Failure(String),
}

impl View for Outcome {
    type V = OutcomeView;

    open spec fn view(&self) -> OutcomeView {
        match self {
            Outcome::Success(response) => OutcomeView::Success(response@),
            Outcome::Failure(description) => OutcomeView::Failure(description@),
        }
    }
}

impl Outcome {
    /// Whether a response held by this outcome is well formed.
    pub open spec fn wf(&self) -> bool {
        match self {
            Outcome::Success(response) => response.wf(),
            Outcome::Failure(_) => true,
        }
    }

    /// The outcome as a result: the response, or `TransportError` with the
    /// transport's description.
    pub fn as_result(&self) -> (result: Result<&Response, (Error, &str)>)
        ensures
            match result {
                Ok(response) => self@ == OutcomeView::Success(response@) && (self.wf()
                    ==> response.wf()),
                Err((kind, description)) => kind == Error::TransportError && self@
                    == OutcomeView::Failure(description@),
            },
    {
        match self {
            Outcome::Success(response) => Ok(response),
            Outcome::Failure(description) => Err((Error::TransportError, description.as_str())),
        }
    }
}

} // verus!
