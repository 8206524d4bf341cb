//! The plain transport client: it owns the pooled HTTP client and states,
//! verified, how a response is classified. The POST itself is asynchronous
//! and runs outside the library, through the `client` field; what came back
//! is handed in as a plain status code.

use vstd::prelude::*;

use crate::errors::SyncError;

verus! {

#[verifier::external_type_specification]
#[verifier::external_body]
pub struct ExClient(reqwest::Client);

/// Pushes a changed file's bytes to one slave per call.
pub struct FileTransferClient {
    pub client: reqwest::Client,
}

/// Relies on `reqwest::Client::new`: a connection-pooling HTTP client with
/// default configuration; nothing further is assumed of it.
#[verifier::external_body]
pub fn initialize_request_clients() -> (r: FileTransferClient) {
    FileTransferClient { client: reqwest::Client::new() }
}

impl FileTransferClient {
    /// Classifies one upload attempt: a 2xx status is success; any other
    /// status is a failure naming that status, and no response at all is a
    /// plain transport failure — surfaced either way, never swallowed.
    pub fn send_file_outcome(&self, status: Option<u16>) -> (r: Result<(), SyncError>)
        ensures
            status is Some && 200 <= status.unwrap() < 300 ==> r == Ok::<(), SyncError>(()),
            status is Some && !(200 <= status.unwrap() < 300) ==> r == Err::<(), SyncError>(
                SyncError::TransportStatus(status.unwrap()),
            ),
            status is None ==> r == Err::<(), SyncError>(SyncError::TransportError),
    {
        match status {
            Some(code) => {
                if 200 <= code && code < 300 {
                    Ok(())
                } else {
                    Err(SyncError::TransportStatus(code))
                }
            },
            None => Err(SyncError::TransportError),
        }
    }
}

} // verus!
