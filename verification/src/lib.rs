//! Verified core of a vhost-user virtio-vsock device backend.

use vstd::prelude::*;

pub mod backend;
pub mod config;
pub mod event;
pub mod thread;
pub mod text;

pub use backend::virtio_vsock_config;
pub use config::VhostUserVsockBackendConfig;

verus! {

/// Number of descriptors in each virtqueue.
pub const QUEUE_SIZE: usize = 128;

/// Number of virtqueues of the device (RX and TX).
pub const NUM_QUEUES: usize = 2;

/// New descriptors are pending on the rx queue.
pub const RX_QUEUE_EVENT: u16 = 0;

/// New descriptors are pending on the tx queue.
pub const TX_QUEUE_EVENT: u16 = 1;

/// New descriptors are pending on the event queue.
pub const EVT_QUEUE_EVENT: u16 = 2;

/// Notification coming from the backend.
pub const BACKEND_EVENT: u16 = 3;

/// Declares `std::io::Error`, which an error of this library can carry.
#[verifier::external_type_specification]
#[verifier::external_body]
pub struct ExIoError(std::io::Error);

/// Why the options of the backend parameter string could not be read.
#[derive(Debug)]
pub enum OptionParserError {
    /// An option whose name is not one of the accepted names.
    UnknownOption(String),
    /// An option with more than one `=`.
    InvalidSyntax(String),
    /// An option whose value does not convert: the option's name, then the value.
    Conversion(String, String),
}

/// Errors of the vsock backend.
#[derive(Debug)]
pub enum Error {
    /// Failed to create kill eventfd
    CreateKillEventFd(std::io::Error),
    /// Failed to parse configuration string
    FailedConfigParse(OptionParserError),
    /// Failed to handle event other than input event.
    HandleEventNotEpollIn,
    /// Failed to handle unknown event.
    HandleEventUnknownEvent,
    /// Cannot create virtio-vsock backend (the description of the cause)
    CreateVsockBackend(String),
    /// No uds_path provided
    UDSPathParameterMissing,
    /// No guest_cid provided
    GuestCIDParameterMissing,
    /// No socket provided
    SocketParameterMissing,
}

} // verus!
