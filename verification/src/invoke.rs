//! The privileged mount invoker: what is handed to the privileged
//! operation, and how its result is read.
//!
//! The call itself is the driver's; it is made once and never repeated.

use crate::codec::KeyMaterial;
use crate::config::{LayeredRootfsConfig, RootfsConfigView};
use crate::error::BootError;
use vstd::prelude::*;

verus! {

/// Number of the privileged operation that mounts the root filesystem.
pub const SYS_MOUNT_FS: i64 = 363;

/// The two shapes in which the privileged mount can be invoked.
pub enum MountRequest {
    /// No key and no configuration: the operation resolves the root
    /// filesystem by itself.
    Bare,
    /// The full layered mount, the key decrypting the encrypted layer.
    Layered { key: KeyMaterial, config: LayeredRootfsConfig },
}

/// What a [`MountRequest`] holds.
pub enum MountRequestView {
    Bare,
    Layered { key: Seq<u8>, config: RootfsConfigView },
}

impl View for MountRequest {
    type V = MountRequestView;

    open spec fn view(&self) -> MountRequestView {
        match *self {
            MountRequest::Bare => MountRequestView::Bare,
            MountRequest::Layered { key, config } => MountRequestView::Layered {
                key: key@,
                config: config@,
            },
        }
    }
}

/// The request for a key and a configuration, where they form one of the
/// two supported shapes.
pub open spec fn request_spec(
    key: Option<KeyMaterial>,
    config: Option<LayeredRootfsConfig>,
) -> Option<MountRequestView> {
    match (key, config) {
        (Some(key), Some(config)) => Some(
            MountRequestView::Layered { key: key@, config: config@ },
        ),
        (None, None) => Some(MountRequestView::Bare),
        _ => None,
    }
}

/// What a status of the privileged operation means: a negative one is a
/// failure, reported with the platform's last error; any other is success.
pub open spec fn outcome_spec(status: i64, os_error: i32) -> Result<(), BootError> {
    if status < 0 {
        Err(BootError::OsError(os_error))
    } else {
        Ok(())
    }
}

impl MountRequest {
    /// Forms the request from an optional key and an optional configuration.
    ///
    /// Both present give the layered mount and both absent the bare one. A
    /// key without a configuration, or a configuration without a key, is
    /// rejected.
    pub fn from_parts(key: Option<KeyMaterial>, config: Option<LayeredRootfsConfig>) -> (r: Option<
        MountRequest,
    >)
        ensures
            match r {
                Some(request) => request_spec(key, config) == Some(request@),
                None => request_spec(key, config) is None,
            },
    {
        match (key, config) {
            (Some(key), Some(config)) => Some(MountRequest::Layered { key, config }),
            (None, None) => Some(MountRequest::Bare),
            _ => None,
        }
    }
}

/// Reads the status that the privileged operation returned. `os_error` is
/// the platform's last error as the driver found it right after the call.
pub fn mount_outcome(status: i64, os_error: i32) -> (r: Result<(), BootError>)
    ensures
        r == outcome_spec(status, os_error),
        status < 0 ==> r == Err::<(), BootError>(BootError::OsError(os_error)),
        status >= 0 ==> r is Ok,
{
    if status < 0 {
        Err(BootError::OsError(os_error))
    } else {
        Ok(())
    }
}

} // verus!
