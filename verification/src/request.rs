//! A received HTTP request, as plain values.
use crate::error::{Error, ErrorKind};
use crate::matcher::copy_bytes;
use crate::text::{ascii_lower, ascii_lowercase, push_str, str_eq, utf8_lossy, utf8_lossy_decode};
use vstd::prelude::*;

verus! {

/// Stores an HTTP request: its method, its path, its path with the query,
/// its header fields in the order received (names in lower case, as HTTP
/// header maps keep them) and, once read, its body.
#[derive(Debug)]
pub struct Request {
    method: String,
    path: String,
    path_and_query: String,
    headers: Vec<(String, String)>,
    body: Option<Vec<u8>>,
}

/// The plain value of a `Request`.
pub struct RequestView {
    pub method: Seq<char>,
    pub path: Seq<char>,
    pub path_and_query: Seq<char>,
    pub headers: Seq<(Seq<char>, Seq<char>)>,
    pub body: Option<Seq<u8>>,
}

/// The views of a list of header fields.
pub open spec fn fields_view(v: Seq<(String, String)>) -> Seq<(Seq<char>, Seq<char>)> {
    Seq::new(v.len(), |i: int| (v[i].0@, v[i].1@))
}

impl View for Request {
    type V = RequestView;

    closed spec fn view(&self) -> RequestView {
        RequestView {
            method: self.method@,
            path: self.path@,
            path_and_query: self.path_and_query@,
            headers: fields_view(self.headers@),
            body: match self.body {
                Some(b) => Some(b@),
                None => None,
            },
        }
    }
}

/// The values of the fields named `name`, in order.
pub open spec fn values_named(fields: Seq<(Seq<char>, Seq<char>)>, name: Seq<char>) -> Seq<Seq<char>>
    decreases fields.len(),
{
    if fields.len() == 0 {
        Seq::empty()
    } else {
        let rest = values_named(fields.drop_last(), name);
        if fields.last().0 == name {
            rest.push(fields.last().1)
        } else {
            rest
        }
    }
}

/// Whether a field named `name` is present.
pub open spec fn has_field(fields: Seq<(Seq<char>, Seq<char>)>, name: Seq<char>) -> bool {
    exists|i: int| 0 <= i < fields.len() && #[trigger] fields[i].0 == name
}

/// The rendering of header fields, one `name: value` line each.
pub open spec fn fields_display(fields: Seq<(Seq<char>, Seq<char>)>) -> Seq<char>
    decreases fields.len(),
{
    if fields.len() == 0 {
        Seq::empty()
    } else {
        fields_display(fields.drop_last()) + fields.last().0 + ": "@ + fields.last().1 + "\r\n"@
    }
}

impl RequestView {
    /// The values of the header named `name`, whose letter case is ignored.
    pub open spec fn header(self, name: Seq<char>) -> Seq<Seq<char>> {
        values_named(self.headers, ascii_lower(name))
    }

    /// Whether the header named `name`, whose letter case is ignored, is present.
    pub open spec fn has_header(self, name: Seq<char>) -> bool {
        has_field(self.headers, ascii_lower(name))
    }

    /// The rendering of a request: its request line, its header lines and,
    /// where it has a non-empty body, the body decoded as UTF-8.
    pub open spec fn formatted(self) -> Seq<char> {
        "\r\n"@ + self.method + " "@ + self.path_and_query + "\r\n"@ + fields_display(self.headers) + (
        match self.body {
            Some(b) => if b.len() > 0 {
                utf8_lossy_decode(b) + "\r\n"@
            } else {
                Seq::empty()
            },
            None => Seq::empty(),
        })
    }
}

impl Request {
    /// A request with the given parts; `body` is `None` for a body that has
    /// not been read.
    pub fn new(
        method: String,
        path: String,
        path_and_query: String,
        headers: Vec<(String, String)>,
        body: Option<Vec<u8>>,
    ) -> (r: Request)
        ensures
            r@.method == method@,
            r@.path == path@,
            r@.path_and_query == path_and_query@,
            r@.headers == fields_view(headers@),
            r@.body == (match body {
                Some(b) => Some(b@),
                None => None::<Seq<u8>>,
            }),
    {
        Request { method, path, path_and_query, headers, body }
    }

    /// The HTTP method.
    pub fn method(&self) -> (r: &str)
        ensures
            r@ == self@.method,
    {
        self.method.as_str()
    }

    /// The path excluding the query part.
    pub fn path(&self) -> (r: &str)
        ensures
            r@ == self@.path,
    {
        self.path.as_str()
    }

    /// The path including the query part.
    pub fn path_and_query(&self) -> (r: &str)
        ensures
            r@ == self@.path_and_query,
    {
        self.path_and_query.as_str()
    }

    /// The header fields, in the order received.
    pub fn headers(&self) -> (r: &Vec<(String, String)>)
        ensures
            fields_view(r@) == self@.headers,
    {
        &self.headers
    }

    /// All the values of the given header field; the letter case of the name
    /// is ignored.
    pub fn header(&self, header_name: &str) -> (r: Vec<String>)
        ensures
            crate::matcher::strings_view(r@) == self@.header(header_name@),
    {
        let key = ascii_lowercase(header_name);
        let ghost fv = fields_view(self.headers@);
        let mut out: Vec<String> = Vec::new();
        let mut i: usize = 0;
        while i < self.headers.len()
            invariant
                fv == fields_view(self.headers@),
                key@ == ascii_lower(header_name@),
                i <= self.headers@.len(),
                crate::matcher::strings_view(out@) == values_named(fv.take(i as int), key@),
            decreases self.headers@.len() - i,
        {
            let (name, value) = &self.headers[i];
            let ghost before = out@;
            if *name == key {
                out.push(value.clone());
            }
            proof {
                assert(fv.take(i + 1).drop_last() =~= fv.take(i as int));
                assert(crate::matcher::strings_view(out@) =~= values_named(fv.take(i + 1), key@));
            }
            i = i + 1;
        }
        proof {
            assert(fv.take(self.headers@.len() as int) =~= fv);
        }
        out
    }

    /// Whether the given header field is present; the letter case of the
    /// name is ignored.
    pub fn has_header(&self, header_name: &str) -> (r: bool)
        ensures
            r == self@.has_header(header_name@),
    {
        let key = ascii_lowercase(header_name);
        let ghost fv = fields_view(self.headers@);
        let mut i: usize = 0;
        while i < self.headers.len()
            invariant
                fv == fields_view(self.headers@),
                key@ == ascii_lower(header_name@),
                i <= self.headers@.len(),
                forall|j: int| 0 <= j < i ==> fv[j].0 != key@,
            decreases self.headers@.len() - i,
        {
            if self.headers[i].0 == key {
                proof {
                    assert(fv[i as int].0 == key@);
                }
                return true;
            }
            i = i + 1;
        }
        false
    }

    /// The request body, or an error where the body has not been read.
    pub fn body(&self) -> (r: Result<&Vec<u8>, Error>)
        ensures
            match r {
                Ok(b) => self@.body == Some(b@),
                Err(e) => self@.body is None && e.kind == ErrorKind::RequestBodyFailure
                    && e.context is None,
            },
    {
        match &self.body {
            Some(b) => Ok(b),
            None => Err(Error::new(ErrorKind::RequestBodyFailure)),
        }
    }

    /// The request body decoded as UTF-8 (invalid sequences replaced), or an
    /// error where the body has not been read.
    pub fn utf8_lossy_body(&self) -> (r: Result<String, Error>)
        ensures
            match r {
                Ok(s) => self@.body matches Some(b) && s@ == utf8_lossy_decode(b),
                Err(e) => self@.body is None && e.kind == ErrorKind::RequestBodyFailure
                    && e.context is None,
            },
    {
        match self.body() {
            Ok(b) => Ok(utf8_lossy(b.as_slice())),
            Err(e) => Err(e),
        }
    }

    /// The rendering of the request (see `RequestView::formatted`).
    pub fn formatted(&self) -> (r: String)
        ensures
            r@ == self@.formatted(),
    {
        let mut s = String::new();
        push_str(&mut s, "\r\n");
        push_str(&mut s, self.method.as_str());
        push_str(&mut s, " ");
        push_str(&mut s, self.path_and_query.as_str());
        push_str(&mut s, "\r\n");
        let ghost head = s@;
        let ghost fv = fields_view(self.headers@);
        let mut i: usize = 0;
        while i < self.headers.len()
            invariant
                fv == fields_view(self.headers@),
                i <= self.headers@.len(),
                s@ == head + fields_display(fv.take(i as int)),
            decreases self.headers@.len() - i,
        {
            let (name, value) = &self.headers[i];
            push_str(&mut s, name.as_str());
            push_str(&mut s, ": ");
            push_str(&mut s, value.as_str());
            push_str(&mut s, "\r\n");
            proof {
                assert(fv.take(i + 1).drop_last() =~= fv.take(i as int));
                assert(s@ =~= head + fields_display(fv.take(i + 1)));
            }
            i = i + 1;
        }
        proof {
            assert(fv.take(self.headers@.len() as int) =~= fv);
        }
        match &self.body {
            Some(b) => {
                if b.len() > 0 {
                    let text = utf8_lossy(b.as_slice());
                    push_str(&mut s, text.as_str());
                    push_str(&mut s, "\r\n");
                }
            },
            None => {},
        }
        proof {
            assert(s@ =~= self@.formatted());
        }
        s
    }

    /// A copy of the request.
    pub fn duplicate(&self) -> (r: Request)
        ensures
            r@ == self@,
    {
        let ghost fv = fields_view(self.headers@);
        let mut headers: Vec<(String, String)> = Vec::new();
        let mut i: usize = 0;
        while i < self.headers.len()
            invariant
                fv == fields_view(self.headers@),
                i <= self.headers@.len(),
                headers@.len() == i,
                fields_view(headers@) == fv.take(i as int),
            decreases self.headers@.len() - i,
        {
            let pair = &self.headers[i];
            let nc = pair.0.clone();
            let vc = pair.1.clone();
            headers.push((nc, vc));
            proof {
                assert(headers@[i as int] == (nc, vc));
                assert(fields_view(headers@) =~= fv.take(i + 1));
            }
            i = i + 1;
        }
        proof {
            assert(fv.take(self.headers@.len() as int) =~= fv);
        }
        let body = match &self.body {
            Some(b) => Some(copy_bytes(b.as_slice())),
            None => None,
        };
        Request {
            method: self.method.clone(),
            path: self.path.clone(),
            path_and_query: self.path_and_query.clone(),
            headers,
            body,
        }
    }
}

} // verus!
