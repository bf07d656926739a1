//! Response formatting: the three status lines this service answers with,
//! the fixed confirmation and error bodies, and the final wire form of a
//! response (status line followed by the body; the connection close marks
//! the end).
use vstd::prelude::*;
use vstd::string::StrSliceExecFns;
use vstd::string::StringSliceAdditionalSpecFns;

verus! {

#[derive(PartialEq, Eq, Structural, Clone, Copy, Debug)]
pub enum Status {
    Okay,
    NotFound,
    Error,
}

/// A response ready to write back: a status and a body.
pub struct Response {
    pub status: Status,
    pub body: Vec<u8>,
}

pub open spec fn sp_status_line(st: Status) -> Seq<u8> {
    match st {
        Status::Okay => "HTTP/1.1 200 OK\r\nContent-Type: application/json\r\n\r\n".spec_bytes(),
        Status::NotFound => "HTTP/1.1 404 NOT FOUND\r\n\r\n".spec_bytes(),
        Status::Error => "HTTP/1.1 500 INTERNAL SERVER ERROR\r\n\r\n".spec_bytes(),
    }
}

pub open spec fn msg_created() -> Seq<u8> {
    "User created".spec_bytes()
}

pub open spec fn msg_updated() -> Seq<u8> {
    "User updated".spec_bytes()
}

pub open spec fn msg_deleted() -> Seq<u8> {
    "User deleted".spec_bytes()
}

pub open spec fn msg_user_not_found() -> Seq<u8> {
    "User not found".spec_bytes()
}

pub open spec fn msg_not_found() -> Seq<u8> {
    "Not found".spec_bytes()
}

pub open spec fn msg_error() -> Seq<u8> {
    "Error occurred".spec_bytes()
}

pub open spec fn msg_invalid_id() -> Seq<u8> {
    "Invalid ID format".spec_bytes()
}

pub open spec fn msg_conn_error() -> Seq<u8> {
    "Database connection error".spec_bytes()
}

/// The status line for a status.
pub fn status_line(st: Status) -> (r: Vec<u8>)
    ensures
        r@ == sp_status_line(st),
{
    match st {
        Status::Okay => "HTTP/1.1 200 OK\r\nContent-Type: application/json\r\n\r\n".as_bytes_vec(),
        Status::NotFound => "HTTP/1.1 404 NOT FOUND\r\n\r\n".as_bytes_vec(),
        Status::Error => "HTTP/1.1 500 INTERNAL SERVER ERROR\r\n\r\n".as_bytes_vec(),
    }
}

/// The full bytes written back on the connection for a response.
pub fn render(resp: &Response) -> (r: Vec<u8>)
    ensures
        r@ == sp_status_line(resp.status) + resp.body@,
{
    let mut out = status_line(resp.status);
    let ghost line = out@;
    let n = resp.body.len();
    let mut k: usize = 0;
    while k < n
        invariant
            0 <= k <= n,
            n == resp.body.len(),
            out@ == line + resp.body@.subrange(0, k as int),
        decreases n - k,
    {
        out.push(resp.body[k]);
        assert(out@ =~= line + resp.body@.subrange(0, k as int + 1));
        k = k + 1;
    }
    proof {
        assert(resp.body@.subrange(0, n as int) =~= resp.body@);
    }
    out
}

} // verus!
