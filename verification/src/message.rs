//! Meta records that travel beside every payload: what the request names and
//! how the response reports its outcome. The server echoes `sequence_id`
//! back verbatim so the client can correlate replies.
use vstd::prelude::*;

verus! {

/// Request-side meta record of the binary protocol.
#[derive(Clone, Debug)]
pub struct RpcRequestMeta {
    pub service_name: String,
    pub method_name: String,
    pub sequence_id: u64,
    pub compress_type: u32,
}

impl RpcRequestMeta {
    /// A record with empty names and zero fields.
    pub fn new() -> (r: Self)
        ensures
            r.service_name@ == Seq::<char>::empty(),
            r.method_name@ == Seq::<char>::empty(),
            r.sequence_id == 0,
            r.compress_type == 0,
    {
        RpcRequestMeta {
            service_name: String::new(),
            method_name: String::new(),
            sequence_id: 0,
            compress_type: 0,
        }
    }

    pub fn set_service_name(&mut self, name: String)
        ensures
            *final(self) == (RpcRequestMeta { service_name: name, ..*old(self) }),
    {
        self.service_name = name;
    }

    pub fn set_method_name(&mut self, name: String)
        ensures
            *final(self) == (RpcRequestMeta { method_name: name, ..*old(self) }),
    {
        self.method_name = name;
    }

    pub fn set_sequence_id(&mut self, id: u64)
        ensures
            *final(self) == (RpcRequestMeta { sequence_id: id, ..*old(self) }),
    {
        self.sequence_id = id;
    }

    pub fn get_service_name(&self) -> (r: &String)
        ensures
            r == self.service_name,
    {
        &self.service_name
    }

    pub fn get_method_name(&self) -> (r: &String)
        ensures
            r == self.method_name,
    {
        &self.method_name
    }

    pub fn get_sequence_id(&self) -> (r: u64)
        ensures
            r == self.sequence_id,
    {
        self.sequence_id
    }
}

/// Response-side meta record; `error_code` 0 means success.
#[derive(Clone, Debug)]
pub struct RpcResponseMeta {
    pub sequence_id: u64,
    pub error_code: u32,
    pub error_text: String,
    pub compress_type: u32,
}

impl RpcResponseMeta {
    /// A record reporting success for sequence id 0.
    pub fn new() -> (r: Self)
        ensures
            r.sequence_id == 0,
            r.error_code == 0,
            r.error_text@ == Seq::<char>::empty(),
            r.compress_type == 0,
    {
        RpcResponseMeta { sequence_id: 0, error_code: 0, error_text: String::new(), compress_type: 0 }
    }

    pub fn set_sequence_id(&mut self, id: u64)
        ensures
            *final(self) == (RpcResponseMeta { sequence_id: id, ..*old(self) }),
    {
        self.sequence_id = id;
    }

    pub fn set_error_code(&mut self, code: u32)
        ensures
            *final(self) == (RpcResponseMeta { error_code: code, ..*old(self) }),
    {
        self.error_code = code;
    }

    pub fn set_error_text(&mut self, text: String)
        ensures
            *final(self) == (RpcResponseMeta { error_text: text, ..*old(self) }),
    {
        self.error_text = text;
    }

    pub fn get_sequence_id(&self) -> (r: u64)
        ensures
            r == self.sequence_id,
    {
        self.sequence_id
    }

    pub fn get_error_code(&self) -> (r: u32)
        ensures
            r == self.error_code,
    {
        self.error_code
    }

    pub fn get_error_text(&self) -> (r: &String)
        ensures
            r == self.error_text,
    {
        &self.error_text
    }
}

} // verus!
