//! Responses of the binary query interface, with the request they answer.

use crate::block::ProtocolVersion;
use vstd::prelude::*;
use vstd::slice::slice_to_vec;

verus! {

/// The error code of a successful response.
pub const NO_ERROR: u16 = 0;

/// The header of a binary response.
#[derive(Clone, Copy, Debug, PartialEq, Eq, Structural)]
pub struct BinaryResponseHeader {
    pub protocol_version: ProtocolVersion,
    /// Zero on success, else the code of the error.
    pub error: u16,
    /// The tag of the payload's type, where there is a payload.
    pub returned_data_type_tag: Option<u8>,
}

/// A response of the binary query interface.
#[derive(Debug)]
pub struct BinaryResponse {
    pub header: BinaryResponseHeader,
    pub payload: Vec<u8>,
}

impl BinaryResponse {
    /// A successful response without payload.
    pub fn new_empty(protocol_version: ProtocolVersion) -> (r: BinaryResponse)
        ensures
            r.header == (BinaryResponseHeader {
                protocol_version,
                error: NO_ERROR,
                returned_data_type_tag: None,
            }),
            r.payload@.len() == 0,
    {
        BinaryResponse {
            header: BinaryResponseHeader {
                protocol_version,
                error: NO_ERROR,
                returned_data_type_tag: None,
            },
            payload: Vec::new(),
        }
    }

    /// A response that reports the error `error_code`.
    pub fn new_error(error_code: u16, protocol_version: ProtocolVersion) -> (r: BinaryResponse)
        ensures
            r.header == (BinaryResponseHeader {
                protocol_version,
                error: error_code,
                returned_data_type_tag: None,
            }),
            r.payload@.len() == 0,
    {
        BinaryResponse {
            header: BinaryResponseHeader {
                protocol_version,
                error: error_code,
                returned_data_type_tag: None,
            },
            payload: Vec::new(),
        }
    }

    /// A successful response carrying `payload`, of the type tagged
    /// `type_tag`.
    pub fn from_raw_bytes(type_tag: u8, payload: Vec<u8>, protocol_version: ProtocolVersion) -> (r:
        BinaryResponse)
        ensures
            r.header == (BinaryResponseHeader {
                protocol_version,
                error: NO_ERROR,
                returned_data_type_tag: Some(type_tag),
            }),
            r.payload@ == payload@,
    {
        BinaryResponse {
            header: BinaryResponseHeader {
                protocol_version,
                error: NO_ERROR,
                returned_data_type_tag: Some(type_tag),
            },
            payload,
        }
    }

    /// Whether the response reports success.
    pub fn is_success(&self) -> (r: bool)
        ensures
            r == (self.header.error == NO_ERROR),
    {
        self.header.error == NO_ERROR
    }

    /// The response's error code; zero on success.
    pub fn error_code(&self) -> (r: u16)
        ensures
            r == self.header.error,
    {
        self.header.error
    }

    /// The payload.
    pub fn payload(&self) -> (r: &[u8])
        ensures
            r@ == self.payload@,
    {
        self.payload.as_slice()
    }
}

/// The request a response answers: its id and its bytes.
#[derive(Debug)]
pub struct OriginalRequestContext {
    pub id: u16,
    pub data: Vec<u8>,
}

/// A binary response along with the original binary request.
#[derive(Debug)]
pub struct BinaryResponseAndRequest {
    original_request: OriginalRequestContext,
    response: BinaryResponse,
}

impl BinaryResponseAndRequest {
    /// The bytes of the original request.
    pub closed spec fn request_bytes(&self) -> Seq<u8> {
        self.original_request.data@
    }

    /// The id of the original request.
    pub closed spec fn request_id(&self) -> u16 {
        self.original_request.id
    }

    /// The response.
    pub closed spec fn response_spec(&self) -> &BinaryResponse {
        &self.response
    }

    /// Pairs `data` with a copy of the original request's bytes and its id.
    pub fn new(data: BinaryResponse, original_request_payload: &[u8], original_request_id: u16) -> (r:
        BinaryResponseAndRequest)
        ensures
            r.request_bytes() == original_request_payload@,
            r.request_id() == original_request_id,
            r.response_spec() == data,
    {
        BinaryResponseAndRequest {
            original_request: OriginalRequestContext {
                id: original_request_id,
                data: slice_to_vec(original_request_payload),
            },
            response: data,
        }
    }

    /// Whether the response reports success.
    pub fn is_success(&self) -> (r: bool)
        ensures
            r == (self.response_spec().header.error == NO_ERROR),
    {
        self.response.is_success()
    }

    /// The response's error code.
    pub fn error_code(&self) -> (r: u16)
        ensures
            r == self.response_spec().header.error,
    {
        self.response.error_code()
    }

    /// The bytes of the original request.
    pub fn original_request_bytes(&self) -> (r: &[u8])
        ensures
            r@ == self.request_bytes(),
    {
        self.original_request.data.as_slice()
    }

    /// The id of the original request.
    pub fn original_request_id(&self) -> (r: u16)
        ensures
            r == self.request_id(),
    {
        self.original_request.id
    }

    /// The response.
    pub fn response(&self) -> (r: &BinaryResponse)
        ensures
            r == self.response_spec(),
    {
        &self.response
    }
}

} // verus!
