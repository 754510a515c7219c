//! Per-call side channel for protocol metadata. The controller created when
//! a request comes in travels with the payload through every pipeline stage
//! and returns with the response; user methods may mutate it.
use vstd::prelude::*;

use vstd::string::StringExecFns;

verus! {

/// HTTP status a user method may ask the protocol layer to send.
#[derive(Clone, Copy, Debug, PartialEq, Eq, Structural)]
pub enum HttpStatus {
    Okay,
    BadRequest,
    NotFound,
    InternalError,
}

impl HttpStatus {
    /// Numeric code of this status.
    pub open spec fn spec_code(self) -> u16 {
        match self {
            HttpStatus::Okay => 200,
            HttpStatus::BadRequest => 400,
            HttpStatus::NotFound => 404,
            HttpStatus::InternalError => 500,
        }
    }

    pub fn code(self) -> (r: u16)
        ensures
            r == self.spec_code(),
    {
        match self {
            HttpStatus::Okay => 200,
            HttpStatus::BadRequest => 400,
            HttpStatus::NotFound => 404,
            HttpStatus::InternalError => 500,
        }
    }
}

/// Protocol-agnostic metadata riding beside one call's payload.
pub struct Controller {
    pub status: Option<HttpStatus>,
    pub response_body: Option<Vec<u8>>,
    pub content_type: Option<String>,
    pub request_headers: Vec<(String, String)>,
    pub response_headers: Vec<(String, String)>,
    pub remote_addr: Option<String>,
}

impl Controller {
    /// A fresh controller with nothing set.
    pub fn new() -> (r: Self)
        ensures
            r.status is None,
            r.response_body is None,
            r.content_type is None,
            r.request_headers@ == Seq::<(String, String)>::empty(),
            r.response_headers@ == Seq::<(String, String)>::empty(),
            r.remote_addr is None,
    {
        Controller {
            status: None,
            response_body: None,
            content_type: None,
            request_headers: Vec::new(),
            response_headers: Vec::new(),
            remote_addr: None,
        }
    }

    /// Records the media type the response should carry.
    pub fn set_content_type(&mut self, t: &str)
        ensures
            *final(self) == (Controller {
                content_type: final(self).content_type,
                ..*old(self)
            }),
            final(self).content_type matches Some(s) && s@ == t@,
    {
        self.content_type = Some(String::from_str(t));
    }

    /// Adds one response header.
    pub fn add_response_header(&mut self, name: String, value: String)
        ensures
            *final(self) == (Controller {
                response_headers: final(self).response_headers,
                ..*old(self)
            }),
            final(self).response_headers@ == old(self).response_headers@.push((name, value)),
    {
        self.response_headers.push((name, value));
    }
}

} // verus!
