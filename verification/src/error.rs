use vstd::prelude::*;

verus! {

/// The terminal outcomes of a request that did not produce a payload.
#[derive(Debug, Clone)]
pub enum ClientError {
    /// A required secret was missing when the configuration was assembled.
    Config { variable: String },
    /// The HTTP method is not one the pipeline can send.
    UnsupportedMethod { method: String },
    /// The secret could not initialise the keyed hash.
    Signing,
    /// The clock produced a timestamp the remote service would reject.
    Timestamp { text: String },
    /// The connection failed or the server answered outside the 2xx range.
    Transport { status: u16, body: String },
    /// The envelope carried a `code` other than `"0"`.
    Api { code: String, msg: String },
    /// The response body is not the JSON the caller expects.
    Deserialization { context: String },
}

} // verus!
