use vstd::prelude::*;

verus! {

/// Error taxonomy for every externally visible operation of the library.
/// Each variant carries a human-readable message.
#[derive(Debug)]
pub enum DeviceError {
    /// A device id, profile id or port is not present in the relevant table.
    NotFound(String),
    /// A port is already connected or an id collides with an existing one.
    AlreadyExists(String),
    /// The device-type/language combination has no toolchain mapping.
    Unsupported(String),
    /// The driver for the device is not confirmed installed.
    NotReady(String),
    /// No viable uploader or push tool was found after the fallback chain.
    ToolMissing(String),
    /// The toolchain compiler returned nonzero; carries the compiler stderr.
    CompileFailed(String),
    /// The toolchain uploader returned nonzero.
    UploadFailed(String),
    /// An OS-level serial or filesystem failure reported by the caller.
    IoFailure(String),
    /// A read or connect operation exceeded the caller's timeout.
    Timeout(String),
}

impl DeviceError {
    /// The message carried by the error, whatever its variant.
    pub fn message(&self) -> (r: String)
        ensures
            r@ == self.message_view(),
    {
        match self {
            DeviceError::NotFound(m) => m.clone(),
            DeviceError::AlreadyExists(m) => m.clone(),
            DeviceError::Unsupported(m) => m.clone(),
            DeviceError::NotReady(m) => m.clone(),
            DeviceError::ToolMissing(m) => m.clone(),
            DeviceError::CompileFailed(m) => m.clone(),
            DeviceError::UploadFailed(m) => m.clone(),
            DeviceError::IoFailure(m) => m.clone(),
            DeviceError::Timeout(m) => m.clone(),
        }
    }

    /// The message of an error, as a sequence of characters.
    pub open spec fn message_view(&self) -> Seq<char> {
        match self {
            DeviceError::NotFound(m) => m@,
            DeviceError::AlreadyExists(m) => m@,
            DeviceError::Unsupported(m) => m@,
            DeviceError::NotReady(m) => m@,
            DeviceError::ToolMissing(m) => m@,
            DeviceError::CompileFailed(m) => m@,
            DeviceError::UploadFailed(m) => m@,
            DeviceError::IoFailure(m) => m@,
            DeviceError::Timeout(m) => m@,
        }
    }
}

} // verus!
