//! Submission outcomes and the payload preparation step: a batch is
//! encoded to its JSON payload and, when compression is enabled, gzip-
//! compressed. Failures are classified as fatal (the batch is dropped) or
//! retryable (the failure policy applies).

use vstd::prelude::*;

use crate::batch::LogEntry;
use crate::payload::encode_payload;
use crate::payload::payload_json;

verus! {

/// Everything that can go wrong with one submission attempt.
pub enum SubmitError {
    /// The batch could not be turned into the wire payload. Fatal.
    Serialization(String),
    /// The serialized payload could not be compressed. Fatal.
    Compression(String),
    /// The endpoint could not be reached (connection, TLS, DNS, timeout).
    /// Retryable.
    Transport(String),
    /// The endpoint answered with a non-2xx HTTP status, carried here
    /// with its status text. Retryable for 408, 429 and the 5xx family;
    /// fatal otherwise.
    Status(u16, String),
}

/// Whether an HTTP status signals overload or a server-side error, so
/// that a retry may help.
pub open spec fn spec_status_retryable(code: u16) -> bool {
    code == 408 || code == 429 || code >= 500
}

/// Whether a failed submission may be retried under some policy: true
/// for transport failures and overload statuses, false for fatal errors.
pub open spec fn spec_is_retryable(e: SubmitError) -> bool {
    match e {
        SubmitError::Serialization(_) => false,
        SubmitError::Compression(_) => false,
        SubmitError::Transport(_) => true,
        SubmitError::Status(code, _) => spec_status_retryable(code),
    }
}

impl SubmitError {
    /// Classify this failure as retryable or fatal.
    pub fn is_retryable(&self) -> (r: bool)
        ensures
            r == spec_is_retryable(*self),
    {
        match self {
            SubmitError::Serialization(_) => false,
            SubmitError::Compression(_) => false,
            SubmitError::Transport(_) => true,
            SubmitError::Status(code, _) => *code == 408 || *code == 429 || *code >= 500,
        }
    }
}

/// A wire-ready request body: the JSON payload as-is, or its gzip
/// compression when compression is enabled.
pub enum EncodedPayload {
    Plain(String),
    Gzipped(Vec<u8>),
}

/// The bytes that `gzip_compress` produces for a given text. The gzip
/// stream is a function of the text alone (fixed compression level,
/// zeroed header timestamp).
pub uninterp spec fn gzip_of(s: Seq<char>) -> Seq<u8>;

/// Relies on `flate2::write::GzEncoder` over an in-memory buffer
/// (`write_all`, then `finish`): compresses the UTF-8 bytes of the text
/// at the default level, deterministically for a given input.
#[verifier::external_body]
fn gzip_compress(data: &str) -> (r: Result<Vec<u8>, String>)
    ensures
        r matches Ok(c) ==> c@ == gzip_of(data@),
{
    let mut encoder = flate2::write::GzEncoder::new(
        Vec::new(),
        flate2::Compression::default(),
    );
    match std::io::Write::write_all(&mut encoder, data.as_bytes()) {
        Ok(()) => match encoder.finish() {
            Ok(compressed) => Ok(compressed),
            Err(e) => Err(e.to_string()),
        },
        Err(e) => Err(e.to_string()),
    }
}

/// What a well-formed request body for the given batch data looks like.
pub open spec fn encoded_payload_ok(
    p: EncodedPayload,
    labels: Seq<(String, String)>,
    entries: Seq<LogEntry>,
    compress: bool,
) -> bool {
    match p {
        EncodedPayload::Plain(s) => !compress && s@ == payload_json(labels, entries),
        EncodedPayload::Gzipped(b) => compress && b@ == gzip_of(payload_json(labels, entries)),
    }
}

/// Serialize a batch's data into the request body, compressing it when
/// asked to. Without compression this never fails; with compression the
/// only possible failure is a `Compression` error from the encoder.
pub fn prepare_payload(
    labels: &Vec<(String, String)>,
    entries: &Vec<LogEntry>,
    compress: bool,
) -> (r: Result<EncodedPayload, SubmitError>)
    ensures
        r matches Ok(p) ==> encoded_payload_ok(p, labels@, entries@, compress),
        r matches Err(e) ==> compress && e matches SubmitError::Compression(_),
        !compress ==> r is Ok,
{
    let body = encode_payload(labels, entries);
    if compress {
        match gzip_compress(body.as_str()) {
            Ok(compressed) => Ok(EncodedPayload::Gzipped(compressed)),
            Err(message) => Err(SubmitError::Compression(message)),
        }
    } else {
        Ok(EncodedPayload::Plain(body))
    }
}

} // verus!
