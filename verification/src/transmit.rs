//! The transmitter: what is sent for a payload, and what a reply means.
//! The request itself is made by the caller, once for each `Request`.
use crate::error::CustomError;
use crate::text::decode;
use vstd::prelude::*;
use vstd::utf8::{decode_utf8, encode_utf8, valid_utf8};

verus! {

/// Where every request goes.
pub const REMOTE_SERVER_URL: &'static str = "http://127.0.0.1";

/// The name of the field that holds the payload's text.
pub const MESSAGE_FIELD: &'static str = "message";

/// The name of the field that says where the sender comes from.
pub const LINK_FIELD: &'static str = "github link";

/// What the second field holds.
pub const LINK: &'static str = "https://github.com/NCGThompson/csci-485-project-3";

/// One field of the body: a name and the text under it.
#[derive(Debug, Clone, PartialEq, Eq)]
pub struct Field {
    pub name: String,
    pub value: String,
}

/// One POST: the address, and the fields of the JSON object that is its
/// body, in order.
#[derive(Debug, Clone, PartialEq, Eq)]
pub struct Request {
    pub url: String,
    pub fields: Vec<Field>,
}

impl Request {
    /// The request that carries `text`: to the fixed address, with exactly
    /// two fields, the text first and the fixed link second.
    pub open spec fn carries(self, text: Seq<char>) -> bool {
        &&& self.url@ == REMOTE_SERVER_URL@
        &&& self.fields@.len() == 2
        &&& self.fields@[0].name@ == MESSAGE_FIELD@
        &&& self.fields@[0].value@ == text
        &&& self.fields@[1].name@ == LINK_FIELD@
        &&& self.fields@[1].value@ == LINK@
    }
}

/// What came back from a request.
#[derive(Debug, Clone, PartialEq, Eq)]
pub enum Reply {
    /// A response, with its status code and a description of it.
    Status { code: u16, text: String },
    /// No response: the request or the reading of the response failed.
    Failed { text: String },
}

/// The request for a payload. The payload has to be UTF-8: where it is not,
/// there is no request to make.
pub fn prepare(data: &[u8]) -> (r: Result<Request, CustomError>)
    ensures
        match r {
            Ok(request) => valid_utf8(data@) && request.carries(decode_utf8(data@))
                && encode_utf8(request.fields@[0].value@) == data@,
            Err(e) => !valid_utf8(data@) && e is DecodeError,
        },
{
    match decode(data) {
        Ok(text) => {
            let mut fields: Vec<Field> = Vec::new();
            fields.push(Field { name: String::from_str(MESSAGE_FIELD), value: text });
            fields.push(
                Field { name: String::from_str(LINK_FIELD), value: String::from_str(LINK) },
            );
            Ok(Request { url: String::from_str(REMOTE_SERVER_URL), fields })
        },
        Err(e) => Err(e),
    }
}

/// What `reply` means for the sender: a status from 200 to 299 is
/// success; any other status, and any failure to get one, is a send error
/// with the reply's description.
pub open spec fn settled(reply: Reply, r: Result<(), CustomError>) -> bool {
    match reply {
        Reply::Status { code, text } => if 200 <= code <= 299 {
            r is Ok
        } else {
            r == Err::<(), CustomError>(CustomError::SendError(text))
        },
        Reply::Failed { text } => r == Err::<(), CustomError>(CustomError::SendError(text)),
    }
}

/// Says what a reply means.
pub fn conclude(reply: Reply) -> (r: Result<(), CustomError>)
    ensures
        settled(reply, r),
{
    match reply {
        Reply::Status { code, text } => if 200 <= code && code <= 299 {
            Ok(())
        } else {
            Err(CustomError::SendError(text))
        },
        Reply::Failed { text } => Err(CustomError::SendError(text)),
    }
}

/// Sends `data` as the text of one request. `post` makes the request and
/// says what came back. A payload that is not UTF-8 is a decode error, and
/// `post` is not called; for one that is, `post` is called once, with the
/// request that carries the payload's text, and its reply decides.
pub fn send_to_remote_server<F>(data: &[u8], post: F) -> (r: Result<(), CustomError>)
    where
        F: FnOnce(Request) -> Reply,
    requires
        forall|request: Request| call_requires(post, (request,)),
    ensures
        !valid_utf8(data@) ==> (r matches Err(e) && e is DecodeError),
        valid_utf8(data@) ==> exists|request: Request, reply: Reply|
            {
                &&& #[trigger] call_ensures(post, (request,), reply)
                &&& request.carries(decode_utf8(data@))
                &&& encode_utf8(request.fields@[0].value@) == data@
                &&& settled(reply, r)
            },
{
    match prepare(data) {
        Ok(request) => conclude(post(request)),
        Err(e) => Err(e),
    }
}

} // verus!
