//! Plain request and response values exchanged with the transport layer.
//!
//! A request arrives as a method, a raw path and a raw body, all as bytes;
//! a response is a status code and a body.  The transport (an HTTP server
//! outside the library) converts between the wire format and these values.

use vstd::prelude::*;

verus! {

/// The HTTP methods the route table distinguishes.  Every other method is
/// rejected by the transport before it reaches the library.
#[derive(Clone, Copy, PartialEq, Eq, Structural, Debug)]
pub enum Method {
    Get,
    Post,
}

/// An incoming request: method, raw request path, the value of the
/// content-type header (empty when absent) and raw body bytes.
pub struct Request {
    pub method: Method,
    pub path: Vec<u8>,
    pub content_type: Vec<u8>,
    pub body: Vec<u8>,
}

/// An outgoing response: a status code and the body bytes.
pub struct Response {
    pub status: u16,
    pub body: Vec<u8>,
}

/// Byte-for-byte equality of two byte vectors.
pub fn bytes_eq(a: &Vec<u8>, b: &Vec<u8>) -> (r: bool)
    ensures
        r == (a@ == b@),
{
    if a.len() != b.len() {
        return false;
    }
    let mut i: usize = 0;
    while i < a.len()
        invariant
            i <= a.len(),
            a@.len() == b@.len(),
            forall|k: int| 0 <= k < i ==> a@[k] == b@[k],
        decreases a.len() - i,
    {
        if a[i] != b[i] {
            return false;
        }
        i = i + 1;
    }
    proof {
        assert(a@ =~= b@);
    }
    true
}

/// Appends the bytes of `src` to `dst`.
pub fn append_bytes(dst: &mut Vec<u8>, src: &Vec<u8>)
    ensures
        final(dst)@ == old(dst)@ + src@,
{
    let mut i: usize = 0;
    proof {
        assert(dst@ =~= dst@ + src@.take(0));
    }
    while i < src.len()
        invariant
            i <= src.len(),
            dst@ == old(dst)@ + src@.take(i as int),
        decreases src.len() - i,
    {
        dst.push(src[i]);
        proof {
            assert(old(dst)@ + src@.take(i as int) + seq![src@[i as int]] =~= old(dst)@
                + src@.take(i as int + 1));
        }
        i = i + 1;
    }
    proof {
        assert(src@.take(src@.len() as int) =~= src@);
    }
}

pub const STATUS_OK: u16 = 200;

pub const STATUS_BAD_REQUEST: u16 = 400;

pub const STATUS_NOT_FOUND: u16 = 404;

pub const STATUS_INTERNAL_ERROR: u16 = 500;

impl Response {
    /// A success response with an empty body.
    pub fn ok_empty() -> (r: Response)
        ensures
            r.status == STATUS_OK,
            r.body@ == Seq::<u8>::empty(),
    {
        Response { status: STATUS_OK, body: Vec::new() }
    }

    /// A success response carrying the given body.
    pub fn ok_with(body: Vec<u8>) -> (r: Response)
        ensures
            r.status == STATUS_OK,
            r.body@ == body@,
    {
        Response { status: STATUS_OK, body }
    }

    /// The client-error response for an undecodable request, empty body.
    pub fn bad_request() -> (r: Response)
        ensures
            r.status == STATUS_BAD_REQUEST,
            r.body@ == Seq::<u8>::empty(),
    {
        Response { status: STATUS_BAD_REQUEST, body: Vec::new() }
    }

    /// The response for a path no route matches, empty body.
    pub fn not_found() -> (r: Response)
        ensures
            r.status == STATUS_NOT_FOUND,
            r.body@ == Seq::<u8>::empty(),
    {
        Response { status: STATUS_NOT_FOUND, body: Vec::new() }
    }

    /// The server-error response for a failed write, empty body.
    pub fn internal_error() -> (r: Response)
        ensures
            r.status == STATUS_INTERNAL_ERROR,
            r.body@ == Seq::<u8>::empty(),
    {
        Response { status: STATUS_INTERNAL_ERROR, body: Vec::new() }
    }
}

} // verus!
