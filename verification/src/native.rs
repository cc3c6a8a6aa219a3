//! The backend of the project's own protocol, which does not transfer anything yet.
use vstd::prelude::*;
use crate::backend::{
    BackendAvailability, BackendCapabilities, BackendError, BackendInfo, BackendUnavailableReason,
    ReceiveRequest, SendRequest, TransferBackend,
};

verus! {

pub const NATIVE_PROTOCOL_VERSION: &'static str = "0.1";

#[derive(Debug, Clone, Default)]
pub struct NativeBackend;

impl NativeBackend {
    pub fn new() -> (backend: Self)
        ensures
            backend == NativeBackend,
    {
        Self
    }

    /// Nothing can be sent yet.
    pub fn refuse_send(&self, _request: &SendRequest) -> (error: BackendError)
        ensures
            error == (BackendError::Unavailable {
                reason: BackendUnavailableReason::NotImplemented,
            }),
    {
        BackendError::Unavailable { reason: BackendUnavailableReason::NotImplemented }
    }

    /// Nothing can be received yet.
    pub fn refuse_receive(&self, _request: &ReceiveRequest) -> (error: BackendError)
        ensures
            error == (BackendError::Unavailable {
                reason: BackendUnavailableReason::NotImplemented,
            }),
    {
        BackendError::Unavailable { reason: BackendUnavailableReason::NotImplemented }
    }
}

impl TransferBackend for NativeBackend {
    open spec fn info_spec(&self) -> BackendInfo {
        BackendInfo {
            name: "native",
            version: Some("0.1"),
            capabilities: BackendCapabilities::of(false, false, false, false, false),
            availability: BackendAvailability::Unavailable {
                reason: BackendUnavailableReason::NotImplemented,
            },
        }
    }

    fn name(&self) -> (name: &'static str) {
        "native"
    }

    fn version(&self) -> (version: Option<&'static str>) {
        Some(NATIVE_PROTOCOL_VERSION)
    }

    fn capabilities(&self) -> (capabilities: BackendCapabilities) {
        BackendCapabilities::new(false, false, false).with_connection_modes(false, false)
    }

    fn availability(&self) -> (availability: BackendAvailability) {
        BackendAvailability::Unavailable { reason: BackendUnavailableReason::NotImplemented }
    }
}

} // verus!
