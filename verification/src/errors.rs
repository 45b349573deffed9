//! The structured error bodies the service returns, as plain values. The
//! caller parses the wire format; deciding what a response means happens
//! in the engine modules.

use vstd::prelude::*;

verus! {

/// A structured API error body.
#[derive(Debug)]
pub struct AdobeApiError {
    pub status: u32,
    pub error_type: String,
    pub title: String,
    pub errors: Option<Vec<String>>,
    pub invalid_params: Option<Vec<AdobeApiErrorInvalidParams>>,
    pub missing_params: Option<Vec<AdobeApiErrorMissingParams>>,
}

/// One invalid parameter inside a structured API error.
#[derive(Debug)]
pub struct AdobeApiErrorInvalidParams {
    pub name: String,
    pub reason: String,
}

/// One missing parameter inside a structured API error.
#[derive(Debug)]
pub struct AdobeApiErrorMissingParams {
    pub name: String,
    pub parameter_type: String,
}

} // verus!
