//! Unified error type of the host.
use vstd::prelude::*;
use crate::text::{decimal, fmt_decimal};

verus! {

#[verifier::external_type_specification]
#[verifier::external_body]
pub struct ExSerdeJsonError(serde_json::Error);

#[verifier::external_type_specification]
#[verifier::external_body]
pub struct ExAnyhowError(anyhow::Error);

#[verifier::external_type_specification]
#[verifier::external_body]
pub struct ExIoError(std::io::Error);

/// Top-level error type of the host.
#[derive(Debug)]
pub enum HostError {
    /// The `circuit` string does not name a known circuit.
    UnknownCircuit(String),
    /// Input deserialization failed; keeps the payload length for diagnostics.
    InvalidInput { bytes: usize, source: serde_json::Error },
    /// Bounds violation: a circuit input longer than its declared maximum.
    OutOfBounds { got: usize, max: usize },
    /// The SP1 SDK failed (setup / execute / prove).
    Sp1(anyhow::Error),
    /// I/O failure when reading inputs or writing proofs.
    Io(std::io::Error),
    /// Folding adapter failure (shape mismatch, witness rejection, drift).
    Folding(String),
    /// The guest output did not match the host-side expectation.
    CrossCheck { host_hex: String, guest_hex: String },
    /// HTTP layer error.
    Http(String),
}

/// The stable string code of each error variant.
pub open spec fn error_code(e: HostError) -> Seq<char> {
    match e {
        HostError::UnknownCircuit(_) => "unknown_circuit"@,
        HostError::InvalidInput { .. } => "invalid_input"@,
        HostError::OutOfBounds { .. } => "out_of_bounds"@,
        HostError::Sp1(_) => "sp1_error"@,
        HostError::Io(_) => "io_error"@,
        HostError::Folding(_) => "folding_error"@,
        HostError::CrossCheck { .. } => "cross_check_mismatch"@,
        HostError::Http(_) => "http_error"@,
    }
}

impl HostError {
    /// The stable string code of this error, for the JSON `error.code` field.
    pub fn code(&self) -> (c: &'static str)
        ensures
            c@ == error_code(*self),
    {
        match self {
            HostError::UnknownCircuit(_) => "unknown_circuit",
            HostError::InvalidInput { .. } => "invalid_input",
            HostError::OutOfBounds { .. } => "out_of_bounds",
            HostError::Sp1(_) => "sp1_error",
            HostError::Io(_) => "io_error",
            HostError::Folding(_) => "folding_error",
            HostError::CrossCheck { .. } => "cross_check_mismatch",
            HostError::Http(_) => "http_error",
        }
    }
}

/// Calls `serde_json::Error`'s `Display`; nothing is claimed of the text.
#[verifier::external_body]
fn json_error_text(e: &serde_json::Error) -> String {
    e.to_string()
}

/// Calls `anyhow::Error`'s `Display`; nothing is claimed of the text.
#[verifier::external_body]
fn anyhow_error_text(e: &anyhow::Error) -> String {
    e.to_string()
}

/// Calls `std::io::Error`'s `Display`; nothing is claimed of the text.
#[verifier::external_body]
fn io_error_text(e: &std::io::Error) -> String {
    e.to_string()
}

/// The human-readable message of each error. For the variants that wrap an
/// outside error only the fixed head is given: the rest is that error's own text.
pub open spec fn error_message_head(e: HostError) -> Seq<char> {
    match e {
        HostError::UnknownCircuit(s) => "unknown circuit: "@ + s@,
        HostError::InvalidInput { bytes, .. } => "invalid input json ("@ + decimal(bytes as nat)
            + " bytes): "@,
        HostError::OutOfBounds { got, max } => "input exceeds bound: got "@ + decimal(got as nat)
            + ", max "@ + decimal(max as nat),
        HostError::Sp1(_) => "sp1 sdk error: "@,
        HostError::Io(_) => "io error: "@,
        HostError::Folding(s) => "folding error: "@ + s@,
        HostError::CrossCheck { host_hex, guest_hex } => "cross-check mismatch: host="@ + host_hex@
            + ", guest="@ + guest_hex@,
        HostError::Http(s) => "http error: "@ + s@,
    }
}

/// Whether the message is the whole text (no outside error is appended).
pub open spec fn message_is_complete(e: HostError) -> bool {
    !(e is InvalidInput || e is Sp1 || e is Io)
}

impl HostError {
    /// The human-readable rendering of this error.
    pub fn message(&self) -> (m: String)
        ensures
            message_is_complete(*self) ==> m@ == error_message_head(*self),
            !message_is_complete(*self) ==> m@.take(error_message_head(*self).len() as int)
                == error_message_head(*self),
    {
        match self {
            HostError::UnknownCircuit(s) => {
                let mut m = String::from_str("unknown circuit: ");
                m.append(s.as_str());
                m
            },
            HostError::InvalidInput { bytes, source } => {
                let mut m = String::from_str("invalid input json (");
                m.append(fmt_decimal(*bytes as u64).as_str());
                m.append(" bytes): ");
                let ghost head = m@;
                m.append(json_error_text(source).as_str());
                assert(m@.take(head.len() as int) =~= head);
                m
            },
            HostError::OutOfBounds { got, max } => {
                let mut m = String::from_str("input exceeds bound: got ");
                m.append(fmt_decimal(*got as u64).as_str());
                m.append(", max ");
                m.append(fmt_decimal(*max as u64).as_str());
                m
            },
            HostError::Sp1(e) => {
                let mut m = String::from_str("sp1 sdk error: ");
                let ghost head = m@;
                m.append(anyhow_error_text(e).as_str());
                assert(m@.take(head.len() as int) =~= head);
                m
            },
            HostError::Io(e) => {
                let mut m = String::from_str("io error: ");
                let ghost head = m@;
                m.append(io_error_text(e).as_str());
                assert(m@.take(head.len() as int) =~= head);
                m
            },
            HostError::Folding(s) => {
                let mut m = String::from_str("folding error: ");
                m.append(s.as_str());
                m
            },
            HostError::CrossCheck { host_hex, guest_hex } => {
                let mut m = String::from_str("cross-check mismatch: host=");
                m.append(host_hex.as_str());
                m.append(", guest=");
                m.append(guest_hex.as_str());
                m
            },
            HostError::Http(s) => {
                let mut m = String::from_str("http error: ");
                m.append(s.as_str());
                m
            },
        }
    }
}

/// Convenience `Result` alias.
pub type HostResult<T> = Result<T, HostError>;

} // verus!
