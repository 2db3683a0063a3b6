use vstd::prelude::*;

verus! {

/// The status of a resolution: either the requested resource was found,
/// or the fallback error path was taken.
#[derive(Debug, PartialEq, Eq, Structural, Clone, Copy)]
pub enum StatusCode {
    Okay,
    NotFound,
}

/// The wire digits of each status code.
pub open spec fn spec_code_str(c: StatusCode) -> Seq<char> {
    match c {
        StatusCode::Okay => "200"@,
        StatusCode::NotFound => "404"@,
    }
}

impl StatusCode {
    /// The three decimal digits that stand for this status on the wire.
    pub fn code_str(&self) -> (r: &'static str)
        ensures
            r@ == spec_code_str(*self),
    {
        match self {
            StatusCode::Okay => "200",
            StatusCode::NotFound => "404",
        }
    }
}

/// The mathematical value of a `Response`: its status and the character
/// sequences of its phrase and body.
pub ghost struct ResponseView {
    pub code: StatusCode,
    pub phrase: Seq<char>,
    pub message: Seq<char>,
}

/// The outcome of resolving one request: a status line and a body,
/// constructed fresh per request and then serialized to the wire.
pub struct Response {
    pub code: StatusCode,
    pub phrase: String,
    pub message: String,
}

impl View for Response {
    type V = ResponseView;

    open spec fn view(&self) -> ResponseView {
        ResponseView { code: self.code, phrase: self.phrase@, message: self.message@ }
    }
}

/// The wire form of a response: status line, an empty header block,
/// then the raw body.
pub open spec fn spec_serialize(r: ResponseView) -> Seq<char> {
    "HTTP/1.1 "@ + spec_code_str(r.code) + " "@ + r.phrase + "\r\n\r\n"@ + r.message
}

impl Response {
    /// Builds a response from its three parts.
    pub fn new(code: StatusCode, phrase: &str, message: &str) -> (r: Response)
        ensures
            r@ == (ResponseView { code, phrase: phrase@, message: message@ }),
    {
        Response { code, phrase: phrase.to_owned(), message: message.to_owned() }
    }

    /// Serializes the response into the exact bytes written back to the
    /// client: `HTTP/1.1 <code> <phrase>\r\n\r\n<body>`.
    pub fn serialize(&self) -> (r: String)
        ensures
            r@ == spec_serialize(self@),
    {
        let mut out = String::from_str("HTTP/1.1 ");
        out.append(self.code.code_str());
        out.append(" ");
        out.append(self.phrase.as_str());
        out.append("\r\n\r\n");
        out.append(self.message.as_str());
        proof {
            assert(out@ =~= spec_serialize(self@));
        }
        out
    }
}

impl Clone for Response {
    /// A copy with the same status, phrase and body.
    fn clone(&self) -> (r: Response)
        ensures
            r@ == self@,
    {
        Response { code: self.code, phrase: self.phrase.clone(), message: self.message.clone() }
    }
}

} // verus!
