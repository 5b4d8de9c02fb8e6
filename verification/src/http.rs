//! Requests and responses as plain values.

use crate::table::Table;
use crate::text::lowered;
use vstd::string::StringSliceAdditionalSpecFns;
use vstd::prelude::*;

verus! {

/// 200, the request was served.
pub const OK: u16 = 200;

/// 201, something was created.
pub const CREATED: u16 = 201;

/// 400, the request is not well formed.
pub const BAD_REQUEST: u16 = 400;

/// 404, nothing is mounted at the path.
pub const NOT_FOUND: u16 = 404;

/// 405, the method is not served.
pub const METHOD_NOT_ALLOWED: u16 = 405;

/// 422, the request was understood and could not be carried out.
pub const UNPROCESSABLE_ENTITY: u16 = 422;

/// 500, the server failed.
pub const INTERNAL_SERVER_ERROR: u16 = 500;

/// The method of a request.
#[derive(Clone, Copy, Debug, PartialEq, Eq, Structural)]
pub enum Method {
    Get,
    Head,
    Post,
    Put,
    Delete,
    Options,
    Patch,
    /// Any method that has no variant of its own.
    Other,
}

/// The headers of a message as a map from names to values.
pub open spec fn header_map(table: Table<String>) -> Map<Seq<char>, Seq<char>> {
    table@.map_values(|v: String| v@)
}

/// Putting a header into the table puts its text into the map of headers.
pub proof fn lemma_header_insert(m: Map<Seq<char>, String>, name: Seq<char>, value: String)
    ensures
        m.insert(name, value).map_values(|v: String| v@) == m.map_values(|v: String| v@).insert(
            name,
            value@,
        ),
{
    assert(m.insert(name, value).map_values(|v: String| v@) =~= m.map_values(|v: String| v@).insert(
        name,
        value@,
    ));
}

/// Whether `list` holds the headers of `headers`: each name once, with its
/// value.
pub open spec fn lists_headers(
    list: Seq<(String, String)>,
    headers: Map<Seq<char>, Seq<char>>,
) -> bool {
    &&& forall|i: int|
        0 <= i < list.len() ==> headers.contains_key(#[trigger] list[i].0@) && headers[list[i].0@]
            == list[i].1@
    &&& forall|i: int, j: int| 0 <= i < j < list.len() ==> list[i].0@ != list[j].0@
    &&& forall|name: Seq<char>| #[trigger]
        headers.contains_key(name) ==> exists|i: int|
            0 <= i < list.len() && #[trigger] list[i].0@ == name
}

/// The names and values that a table of headers holds.
fn list_headers(table: &Table<String>) -> (list: Vec<(String, String)>)
    ensures
        lists_headers(list@, header_map(*table)),
{
    proof {
        use_type_invariant(table);
    }
    let mut list: Vec<(String, String)> = Vec::new();
    let n: usize = table.len();
    let mut i: usize = 0;
    while i < n
        invariant
            table.well_formed(),
            n == table.entries().len(),
            i <= n,
            list@.len() == i,
            forall|j: int|
                0 <= j < i ==> (#[trigger] list@[j]).0@ == table.entries()[j].0 && list@[j].1@
                    == table.entries()[j].1@,
        decreases n - i,
    {
        let entry = table.entry(i);
        list.push((String::from_str(entry.0), entry.1.clone()));
        i = i + 1;
    }
    proof {
        let headers = header_map(*table);
        assert forall|j: int| 0 <= j < list@.len() implies headers.contains_key(
            #[trigger] list@[j].0@,
        ) && headers[list@[j].0@] == list@[j].1@ by {
            table.lemma_entry(j);
        }
        assert forall|name: Seq<char>| #[trigger] headers.contains_key(name) implies exists|i: int|
            0 <= i < list@.len() && #[trigger] list@[i].0@ == name by {
            let at = table.place(name);
            assert(list@[at].0@ == name);
        }
    }
    list
}

/// The mathematical value of a [`Request`].
pub struct RequestView {
    pub method: Method,
    pub path: Seq<char>,
    pub headers: Map<Seq<char>, Seq<char>>,
    pub body: Seq<u8>,
}

/// The mathematical value of a [`Response`].
pub struct ResponseView {
    pub status: u16,
    pub headers: Map<Seq<char>, Seq<char>>,
    pub body: Seq<u8>,
}

/// A request: a method, the path of its URL, headers and a body. The case
/// of the ASCII letters in a header's name does not count: names are kept in
/// lower case.
#[derive(Debug)]
pub struct Request {
    method: Method,
    path: String,
    headers: Table<String>,
    body: Vec<u8>,
}

impl View for Request {
    type V = RequestView;

    closed spec fn view(&self) -> RequestView {
        RequestView {
            method: self.method,
            path: self.path@,
            headers: header_map(self.headers),
            body: self.body@,
        }
    }
}

impl Request {
    /// A request for `path` with no header and an empty body.
    pub fn new(method: Method, path: &str) -> (r: Request)
        ensures
            r@ == (RequestView {
                method,
                path: path@,
                headers: Map::<Seq<char>, Seq<char>>::empty(),
                body: Seq::<u8>::empty(),
            }),
    {
        let r = Request {
            method,
            path: String::from_str(path),
            headers: Table::new(),
            body: Vec::new(),
        };
        assert(header_map(r.headers) =~= Map::<Seq<char>, Seq<char>>::empty());
        r
    }

    /// The request's method.
    pub fn method(&self) -> (m: Method)
        ensures
            m == self@.method,
    {
        self.method
    }

    /// The path of the request's URL.
    pub fn path(&self) -> (p: &str)
        ensures
            p@ == self@.path,
    {
        self.path.as_str()
    }

    /// The value of the header `name`, if the request has it.
    pub fn header(&self, name: &str) -> (r: Option<&str>)
        ensures
            match r {
                Some(v) => self@.headers.contains_key(lowered(name@)) && v@
                    == self@.headers[lowered(name@)],
                None => !self@.headers.contains_key(lowered(name@)),
            },
    {
        let key = name.to_ascii_lowercase();
        match self.headers.get(key.as_str()) {
            Some(v) => Some(v.as_str()),
            None => None,
        }
    }

    /// The request's headers.
    pub fn headers(&self) -> (list: Vec<(String, String)>)
        ensures
            lists_headers(list@, self@.headers),
    {
        list_headers(&self.headers)
    }

    /// The request's body.
    pub fn body(&self) -> (b: &Vec<u8>)
        ensures
            b@ == self@.body,
    {
        &self.body
    }

    /// Sets the header `name` to `value`, in place of any value it had.
    pub fn insert_header(&mut self, name: &str, value: &str)
        ensures
            final(self)@ == (RequestView {
                headers: old(self)@.headers.insert(lowered(name@), value@),
                ..old(self)@
            }),
    {
        let key = name.to_ascii_lowercase();
        let text = String::from_str(value);
        proof {
            lemma_header_insert(self.headers@, key@, text);
        }
        self.headers.insert(key.as_str(), text);
    }

    /// Replaces the path.
    pub fn set_path(&mut self, path: &str)
        ensures
            final(self)@ == (RequestView { path: path@, ..old(self)@ }),
    {
        self.path = String::from_str(path);
    }

    /// Replaces the body.
    pub fn set_body(&mut self, body: Vec<u8>)
        ensures
            final(self)@ == (RequestView { body: body@, ..old(self)@ }),
    {
        self.body = body;
    }
}

/// A response: a status code, headers and a body. Header names are kept in
/// lower case, as in a request.
#[derive(Debug)]
pub struct Response {
    status: u16,
    headers: Table<String>,
    body: Vec<u8>,
}

impl View for Response {
    type V = ResponseView;

    closed spec fn view(&self) -> ResponseView {
        ResponseView { status: self.status, headers: header_map(self.headers), body: self.body@ }
    }
}

/// The response that has only a status.
pub open spec fn bare(status: u16) -> ResponseView {
    ResponseView {
        status,
        headers: Map::<Seq<char>, Seq<char>>::empty(),
        body: Seq::<u8>::empty(),
    }
}

impl Response {
    /// A response with `status`, no header and an empty body.
    pub fn new(status: u16) -> (r: Response)
        ensures
            r@ == bare(status),
    {
        let r = Response { status, headers: Table::new(), body: Vec::new() };
        assert(header_map(r.headers) =~= Map::<Seq<char>, Seq<char>>::empty());
        r
    }

    /// A response with `status` whose body is the bytes of `message`.
    pub fn with_message(status: u16, message: &str) -> (r: Response)
        ensures
            r@ == (ResponseView { body: message.spec_bytes(), ..bare(status) }),
    {
        let mut r = Response::new(status);
        r.set_body(message.as_bytes_vec());
        r
    }

    /// The status code.
    pub fn status(&self) -> (s: u16)
        ensures
            s == self@.status,
    {
        self.status
    }

    /// The value of the header `name`, if the response has it.
    pub fn header(&self, name: &str) -> (r: Option<&str>)
        ensures
            match r {
                Some(v) => self@.headers.contains_key(lowered(name@)) && v@
                    == self@.headers[lowered(name@)],
                None => !self@.headers.contains_key(lowered(name@)),
            },
    {
        let key = name.to_ascii_lowercase();
        match self.headers.get(key.as_str()) {
            Some(v) => Some(v.as_str()),
            None => None,
        }
    }

    /// The response's headers.
    pub fn headers(&self) -> (list: Vec<(String, String)>)
        ensures
            lists_headers(list@, self@.headers),
    {
        list_headers(&self.headers)
    }

    /// The body.
    pub fn body(&self) -> (b: &Vec<u8>)
        ensures
            b@ == self@.body,
    {
        &self.body
    }

    /// Sets the header `name` to `value`, in place of any value it had.
    pub fn insert_header(&mut self, name: &str, value: &str)
        ensures
            final(self)@ == (ResponseView {
                headers: old(self)@.headers.insert(lowered(name@), value@),
                ..old(self)@
            }),
    {
        let key = name.to_ascii_lowercase();
        let text = String::from_str(value);
        proof {
            lemma_header_insert(self.headers@, key@, text);
        }
        self.headers.insert(key.as_str(), text);
    }

    /// Replaces the body.
    pub fn set_body(&mut self, body: Vec<u8>)
        ensures
            final(self)@ == (ResponseView { body: body@, ..old(self)@ }),
    {
        self.body = body;
    }
}

} // verus!
