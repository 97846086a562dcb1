use vstd::prelude::*;

verus! {

/// An HTTP answer as the server sends it: a status code and a plain-text body.
#[derive(Clone, Copy, Debug, PartialEq, Eq)]
pub struct Reply {
    pub status: u16,
    pub body: &'static str,
}

/// `400 Bad Request` with the given message.
pub fn bad_request(msg: &'static str) -> (r: Reply)
    ensures
        r.status == 400,
        r.body == msg,
{
    Reply { status: 400, body: msg }
}

/// `500 Internal Server Error` with the given message.
pub fn internal(msg: &'static str) -> (r: Reply)
    ensures
        r.status == 500,
        r.body == msg,
{
    Reply { status: 500, body: msg }
}

} // verus!
