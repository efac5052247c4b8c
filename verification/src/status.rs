//! Error codes of the hardware media codec interface.

use vstd::prelude::*;

verus! {

/// Error returned by the media codec API.
#[derive(Debug, Copy, Clone, Hash, PartialEq, Eq, Structural)]
pub enum MediaStatus {
    Sys(NonZeroSysMediaStatus),
    AllocationError,
    StringNulError,
    MediaCodecCreationFailed,
    NoAvailableBuffer,
}

/// The raw status codes of the media codec interface, excluding the success
/// code.  The duplicate base code, an alias of the unknown-error code, is
/// also excluded.
#[allow(non_camel_case_types)]
#[non_exhaustive]
#[derive(Debug, Copy, Clone, Hash, PartialEq, Eq, Structural)]
pub enum NonZeroSysMediaStatus {
    AMEDIACODEC_ERROR_INSUFFICIENT_RESOURCE,
    AMEDIACODEC_ERROR_RECLAIMED,
    AMEDIA_ERROR_UNKNOWN,
    AMEDIA_ERROR_MALFORMED,
    AMEDIA_ERROR_UNSUPPORTED,
    AMEDIA_ERROR_INVALID_OBJECT,
    AMEDIA_ERROR_INVALID_PARAMETER,
    AMEDIA_ERROR_INVALID_OPERATION,
    AMEDIA_ERROR_END_OF_STREAM,
    AMEDIA_ERROR_IO,
    AMEDIA_ERROR_WOULD_BLOCK,
    AMEDIA_DRM_ERROR_BASE,
    AMEDIA_DRM_NOT_PROVISIONED,
    AMEDIA_DRM_RESOURCE_BUSY,
    AMEDIA_DRM_DEVICE_REVOKED,
    AMEDIA_DRM_SHORT_BUFFER,
    AMEDIA_DRM_SESSION_NOT_OPENED,
    AMEDIA_DRM_TAMPER_DETECTED,
    AMEDIA_DRM_VERIFY_FAILED,
    AMEDIA_DRM_NEED_KEY,
    AMEDIA_DRM_LICENSE_EXPIRED,
    AMEDIA_IMGREADER_ERROR_BASE,
    AMEDIA_IMGREADER_NO_BUFFER_AVAILABLE,
    AMEDIA_IMGREADER_MAX_IMAGES_ACQUIRED,
    AMEDIA_IMGREADER_CANNOT_LOCK_IMAGE,
    AMEDIA_IMGREADER_CANNOT_UNLOCK_IMAGE,
    AMEDIA_IMGREADER_IMAGE_NOT_LOCKED,
}

/// The numeric value of each raw status code.
pub open spec fn status_code(s: NonZeroSysMediaStatus) -> i32 {
    match s {
        NonZeroSysMediaStatus::AMEDIACODEC_ERROR_INSUFFICIENT_RESOURCE => 1100i32,
        NonZeroSysMediaStatus::AMEDIACODEC_ERROR_RECLAIMED => 1101i32,
        NonZeroSysMediaStatus::AMEDIA_ERROR_UNKNOWN => -10000i32,
        NonZeroSysMediaStatus::AMEDIA_ERROR_MALFORMED => -10001i32,
        NonZeroSysMediaStatus::AMEDIA_ERROR_UNSUPPORTED => -10002i32,
        NonZeroSysMediaStatus::AMEDIA_ERROR_INVALID_OBJECT => -10003i32,
        NonZeroSysMediaStatus::AMEDIA_ERROR_INVALID_PARAMETER => -10004i32,
        NonZeroSysMediaStatus::AMEDIA_ERROR_INVALID_OPERATION => -10005i32,
        NonZeroSysMediaStatus::AMEDIA_ERROR_END_OF_STREAM => -10006i32,
        NonZeroSysMediaStatus::AMEDIA_ERROR_IO => -10007i32,
        NonZeroSysMediaStatus::AMEDIA_ERROR_WOULD_BLOCK => -10008i32,
        NonZeroSysMediaStatus::AMEDIA_DRM_ERROR_BASE => -20000i32,
        NonZeroSysMediaStatus::AMEDIA_DRM_NOT_PROVISIONED => -20001i32,
        NonZeroSysMediaStatus::AMEDIA_DRM_RESOURCE_BUSY => -20002i32,
        NonZeroSysMediaStatus::AMEDIA_DRM_DEVICE_REVOKED => -20003i32,
        NonZeroSysMediaStatus::AMEDIA_DRM_SHORT_BUFFER => -20004i32,
        NonZeroSysMediaStatus::AMEDIA_DRM_SESSION_NOT_OPENED => -20005i32,
        NonZeroSysMediaStatus::AMEDIA_DRM_TAMPER_DETECTED => -20006i32,
        NonZeroSysMediaStatus::AMEDIA_DRM_VERIFY_FAILED => -20007i32,
        NonZeroSysMediaStatus::AMEDIA_DRM_NEED_KEY => -20008i32,
        NonZeroSysMediaStatus::AMEDIA_DRM_LICENSE_EXPIRED => -20009i32,
        NonZeroSysMediaStatus::AMEDIA_IMGREADER_ERROR_BASE => -30000i32,
        NonZeroSysMediaStatus::AMEDIA_IMGREADER_NO_BUFFER_AVAILABLE => -30001i32,
        NonZeroSysMediaStatus::AMEDIA_IMGREADER_MAX_IMAGES_ACQUIRED => -30002i32,
        NonZeroSysMediaStatus::AMEDIA_IMGREADER_CANNOT_LOCK_IMAGE => -30003i32,
        NonZeroSysMediaStatus::AMEDIA_IMGREADER_CANNOT_UNLOCK_IMAGE => -30004i32,
        NonZeroSysMediaStatus::AMEDIA_IMGREADER_IMAGE_NOT_LOCKED => -30005i32,
    }
}

/// How a raw numeric status maps into the enum: the success code maps to
/// `Err`, every known failure code to its variant, and any other value to
/// the unknown-error variant.
pub open spec fn status_from_code(value: i32) -> Result<NonZeroSysMediaStatus, ()> {
    if value == 0 {
        Err(())
    } else if value == 1100 {
        Ok(NonZeroSysMediaStatus::AMEDIACODEC_ERROR_INSUFFICIENT_RESOURCE)
    } else if value == 1101 {
        Ok(NonZeroSysMediaStatus::AMEDIACODEC_ERROR_RECLAIMED)
    } else if value == -10000 {
        Ok(NonZeroSysMediaStatus::AMEDIA_ERROR_UNKNOWN)
    } else if value == -10001 {
        Ok(NonZeroSysMediaStatus::AMEDIA_ERROR_MALFORMED)
    } else if value == -10002 {
        Ok(NonZeroSysMediaStatus::AMEDIA_ERROR_UNSUPPORTED)
    } else if value == -10003 {
        Ok(NonZeroSysMediaStatus::AMEDIA_ERROR_INVALID_OBJECT)
    } else if value == -10004 {
        Ok(NonZeroSysMediaStatus::AMEDIA_ERROR_INVALID_PARAMETER)
    } else if value == -10005 {
        Ok(NonZeroSysMediaStatus::AMEDIA_ERROR_INVALID_OPERATION)
    } else if value == -10006 {
        Ok(NonZeroSysMediaStatus::AMEDIA_ERROR_END_OF_STREAM)
    } else if value == -10007 {
        Ok(NonZeroSysMediaStatus::AMEDIA_ERROR_IO)
    } else if value == -10008 {
        Ok(NonZeroSysMediaStatus::AMEDIA_ERROR_WOULD_BLOCK)
    } else if value == -20000 {
        Ok(NonZeroSysMediaStatus::AMEDIA_DRM_ERROR_BASE)
    } else if value == -20001 {
        Ok(NonZeroSysMediaStatus::AMEDIA_DRM_NOT_PROVISIONED)
    } else if value == -20002 {
        Ok(NonZeroSysMediaStatus::AMEDIA_DRM_RESOURCE_BUSY)
    } else if value == -20003 {
        Ok(NonZeroSysMediaStatus::AMEDIA_DRM_DEVICE_REVOKED)
    } else if value == -20004 {
        Ok(NonZeroSysMediaStatus::AMEDIA_DRM_SHORT_BUFFER)
    } else if value == -20005 {
        Ok(NonZeroSysMediaStatus::AMEDIA_DRM_SESSION_NOT_OPENED)
    } else if value == -20006 {
        Ok(NonZeroSysMediaStatus::AMEDIA_DRM_TAMPER_DETECTED)
    } else if value == -20007 {
        Ok(NonZeroSysMediaStatus::AMEDIA_DRM_VERIFY_FAILED)
    } else if value == -20008 {
        Ok(NonZeroSysMediaStatus::AMEDIA_DRM_NEED_KEY)
    } else if value == -20009 {
        Ok(NonZeroSysMediaStatus::AMEDIA_DRM_LICENSE_EXPIRED)
    } else if value == -30000 {
        Ok(NonZeroSysMediaStatus::AMEDIA_IMGREADER_ERROR_BASE)
    } else if value == -30001 {
        Ok(NonZeroSysMediaStatus::AMEDIA_IMGREADER_NO_BUFFER_AVAILABLE)
    } else if value == -30002 {
        Ok(NonZeroSysMediaStatus::AMEDIA_IMGREADER_MAX_IMAGES_ACQUIRED)
    } else if value == -30003 {
        Ok(NonZeroSysMediaStatus::AMEDIA_IMGREADER_CANNOT_LOCK_IMAGE)
    } else if value == -30004 {
        Ok(NonZeroSysMediaStatus::AMEDIA_IMGREADER_CANNOT_UNLOCK_IMAGE)
    } else if value == -30005 {
        Ok(NonZeroSysMediaStatus::AMEDIA_IMGREADER_IMAGE_NOT_LOCKED)
    } else {
        Ok(NonZeroSysMediaStatus::AMEDIA_ERROR_UNKNOWN)
    }
}

/// The name of each raw status code.
pub open spec fn status_name(s: NonZeroSysMediaStatus) -> Seq<char> {
    match s {
        NonZeroSysMediaStatus::AMEDIACODEC_ERROR_INSUFFICIENT_RESOURCE => "AMEDIACODEC_ERROR_INSUFFICIENT_RESOURCE"@,
        NonZeroSysMediaStatus::AMEDIACODEC_ERROR_RECLAIMED => "AMEDIACODEC_ERROR_RECLAIMED"@,
        NonZeroSysMediaStatus::AMEDIA_ERROR_UNKNOWN => "AMEDIA_ERROR_UNKNOWN"@,
        NonZeroSysMediaStatus::AMEDIA_ERROR_MALFORMED => "AMEDIA_ERROR_MALFORMED"@,
        NonZeroSysMediaStatus::AMEDIA_ERROR_UNSUPPORTED => "AMEDIA_ERROR_UNSUPPORTED"@,
        NonZeroSysMediaStatus::AMEDIA_ERROR_INVALID_OBJECT => "AMEDIA_ERROR_INVALID_OBJECT"@,
        NonZeroSysMediaStatus::AMEDIA_ERROR_INVALID_PARAMETER => "AMEDIA_ERROR_INVALID_PARAMETER"@,
        NonZeroSysMediaStatus::AMEDIA_ERROR_INVALID_OPERATION => "AMEDIA_ERROR_INVALID_OPERATION"@,
        NonZeroSysMediaStatus::AMEDIA_ERROR_END_OF_STREAM => "AMEDIA_ERROR_END_OF_STREAM"@,
        NonZeroSysMediaStatus::AMEDIA_ERROR_IO => "AMEDIA_ERROR_IO"@,
        NonZeroSysMediaStatus::AMEDIA_ERROR_WOULD_BLOCK => "AMEDIA_ERROR_WOULD_BLOCK"@,
        NonZeroSysMediaStatus::AMEDIA_DRM_ERROR_BASE => "AMEDIA_DRM_ERROR_BASE"@,
        NonZeroSysMediaStatus::AMEDIA_DRM_NOT_PROVISIONED => "AMEDIA_DRM_NOT_PROVISIONED"@,
        NonZeroSysMediaStatus::AMEDIA_DRM_RESOURCE_BUSY => "AMEDIA_DRM_RESOURCE_BUSY"@,
        NonZeroSysMediaStatus::AMEDIA_DRM_DEVICE_REVOKED => "AMEDIA_DRM_DEVICE_REVOKED"@,
        NonZeroSysMediaStatus::AMEDIA_DRM_SHORT_BUFFER => "AMEDIA_DRM_SHORT_BUFFER"@,
        NonZeroSysMediaStatus::AMEDIA_DRM_SESSION_NOT_OPENED => "AMEDIA_DRM_SESSION_NOT_OPENED"@,
        NonZeroSysMediaStatus::AMEDIA_DRM_TAMPER_DETECTED => "AMEDIA_DRM_TAMPER_DETECTED"@,
        NonZeroSysMediaStatus::AMEDIA_DRM_VERIFY_FAILED => "AMEDIA_DRM_VERIFY_FAILED"@,
        NonZeroSysMediaStatus::AMEDIA_DRM_NEED_KEY => "AMEDIA_DRM_NEED_KEY"@,
        NonZeroSysMediaStatus::AMEDIA_DRM_LICENSE_EXPIRED => "AMEDIA_DRM_LICENSE_EXPIRED"@,
        NonZeroSysMediaStatus::AMEDIA_IMGREADER_ERROR_BASE => "AMEDIA_IMGREADER_ERROR_BASE"@,
        NonZeroSysMediaStatus::AMEDIA_IMGREADER_NO_BUFFER_AVAILABLE => "AMEDIA_IMGREADER_NO_BUFFER_AVAILABLE"@,
        NonZeroSysMediaStatus::AMEDIA_IMGREADER_MAX_IMAGES_ACQUIRED => "AMEDIA_IMGREADER_MAX_IMAGES_ACQUIRED"@,
        NonZeroSysMediaStatus::AMEDIA_IMGREADER_CANNOT_LOCK_IMAGE => "AMEDIA_IMGREADER_CANNOT_LOCK_IMAGE"@,
        NonZeroSysMediaStatus::AMEDIA_IMGREADER_CANNOT_UNLOCK_IMAGE => "AMEDIA_IMGREADER_CANNOT_UNLOCK_IMAGE"@,
        NonZeroSysMediaStatus::AMEDIA_IMGREADER_IMAGE_NOT_LOCKED => "AMEDIA_IMGREADER_IMAGE_NOT_LOCKED"@,
    }
}

impl NonZeroSysMediaStatus {
    /// The numeric value of this status code.
    pub fn code(self) -> (r: i32)
        ensures
            r == status_code(self),
    {
        match self {
            NonZeroSysMediaStatus::AMEDIACODEC_ERROR_INSUFFICIENT_RESOURCE => 1100,
            NonZeroSysMediaStatus::AMEDIACODEC_ERROR_RECLAIMED => 1101,
            NonZeroSysMediaStatus::AMEDIA_ERROR_UNKNOWN => -10000,
            NonZeroSysMediaStatus::AMEDIA_ERROR_MALFORMED => -10001,
            NonZeroSysMediaStatus::AMEDIA_ERROR_UNSUPPORTED => -10002,
            NonZeroSysMediaStatus::AMEDIA_ERROR_INVALID_OBJECT => -10003,
            NonZeroSysMediaStatus::AMEDIA_ERROR_INVALID_PARAMETER => -10004,
            NonZeroSysMediaStatus::AMEDIA_ERROR_INVALID_OPERATION => -10005,
            NonZeroSysMediaStatus::AMEDIA_ERROR_END_OF_STREAM => -10006,
            NonZeroSysMediaStatus::AMEDIA_ERROR_IO => -10007,
            NonZeroSysMediaStatus::AMEDIA_ERROR_WOULD_BLOCK => -10008,
            NonZeroSysMediaStatus::AMEDIA_DRM_ERROR_BASE => -20000,
            NonZeroSysMediaStatus::AMEDIA_DRM_NOT_PROVISIONED => -20001,
            NonZeroSysMediaStatus::AMEDIA_DRM_RESOURCE_BUSY => -20002,
            NonZeroSysMediaStatus::AMEDIA_DRM_DEVICE_REVOKED => -20003,
            NonZeroSysMediaStatus::AMEDIA_DRM_SHORT_BUFFER => -20004,
            NonZeroSysMediaStatus::AMEDIA_DRM_SESSION_NOT_OPENED => -20005,
            NonZeroSysMediaStatus::AMEDIA_DRM_TAMPER_DETECTED => -20006,
            NonZeroSysMediaStatus::AMEDIA_DRM_VERIFY_FAILED => -20007,
            NonZeroSysMediaStatus::AMEDIA_DRM_NEED_KEY => -20008,
            NonZeroSysMediaStatus::AMEDIA_DRM_LICENSE_EXPIRED => -20009,
            NonZeroSysMediaStatus::AMEDIA_IMGREADER_ERROR_BASE => -30000,
            NonZeroSysMediaStatus::AMEDIA_IMGREADER_NO_BUFFER_AVAILABLE => -30001,
            NonZeroSysMediaStatus::AMEDIA_IMGREADER_MAX_IMAGES_ACQUIRED => -30002,
            NonZeroSysMediaStatus::AMEDIA_IMGREADER_CANNOT_LOCK_IMAGE => -30003,
            NonZeroSysMediaStatus::AMEDIA_IMGREADER_CANNOT_UNLOCK_IMAGE => -30004,
            NonZeroSysMediaStatus::AMEDIA_IMGREADER_IMAGE_NOT_LOCKED => -30005,
        }
    }

    /// Classify a raw numeric status.  The success code is rejected; any
    /// unrecognized failure code is treated as the unknown error.
    pub fn try_from_code(value: i32) -> (r: Result<NonZeroSysMediaStatus, ()>)
        ensures
            r == status_from_code(value),
    {
        match value {
            0 => Err(()),
            1100 => Ok(NonZeroSysMediaStatus::AMEDIACODEC_ERROR_INSUFFICIENT_RESOURCE),
            1101 => Ok(NonZeroSysMediaStatus::AMEDIACODEC_ERROR_RECLAIMED),
            -10000 => Ok(NonZeroSysMediaStatus::AMEDIA_ERROR_UNKNOWN),
            -10001 => Ok(NonZeroSysMediaStatus::AMEDIA_ERROR_MALFORMED),
            -10002 => Ok(NonZeroSysMediaStatus::AMEDIA_ERROR_UNSUPPORTED),
            -10003 => Ok(NonZeroSysMediaStatus::AMEDIA_ERROR_INVALID_OBJECT),
            -10004 => Ok(NonZeroSysMediaStatus::AMEDIA_ERROR_INVALID_PARAMETER),
            -10005 => Ok(NonZeroSysMediaStatus::AMEDIA_ERROR_INVALID_OPERATION),
            -10006 => Ok(NonZeroSysMediaStatus::AMEDIA_ERROR_END_OF_STREAM),
            -10007 => Ok(NonZeroSysMediaStatus::AMEDIA_ERROR_IO),
            -10008 => Ok(NonZeroSysMediaStatus::AMEDIA_ERROR_WOULD_BLOCK),
            -20000 => Ok(NonZeroSysMediaStatus::AMEDIA_DRM_ERROR_BASE),
            -20001 => Ok(NonZeroSysMediaStatus::AMEDIA_DRM_NOT_PROVISIONED),
            -20002 => Ok(NonZeroSysMediaStatus::AMEDIA_DRM_RESOURCE_BUSY),
            -20003 => Ok(NonZeroSysMediaStatus::AMEDIA_DRM_DEVICE_REVOKED),
            -20004 => Ok(NonZeroSysMediaStatus::AMEDIA_DRM_SHORT_BUFFER),
            -20005 => Ok(NonZeroSysMediaStatus::AMEDIA_DRM_SESSION_NOT_OPENED),
            -20006 => Ok(NonZeroSysMediaStatus::AMEDIA_DRM_TAMPER_DETECTED),
            -20007 => Ok(NonZeroSysMediaStatus::AMEDIA_DRM_VERIFY_FAILED),
            -20008 => Ok(NonZeroSysMediaStatus::AMEDIA_DRM_NEED_KEY),
            -20009 => Ok(NonZeroSysMediaStatus::AMEDIA_DRM_LICENSE_EXPIRED),
            -30000 => Ok(NonZeroSysMediaStatus::AMEDIA_IMGREADER_ERROR_BASE),
            -30001 => Ok(NonZeroSysMediaStatus::AMEDIA_IMGREADER_NO_BUFFER_AVAILABLE),
            -30002 => Ok(NonZeroSysMediaStatus::AMEDIA_IMGREADER_MAX_IMAGES_ACQUIRED),
            -30003 => Ok(NonZeroSysMediaStatus::AMEDIA_IMGREADER_CANNOT_LOCK_IMAGE),
            -30004 => Ok(NonZeroSysMediaStatus::AMEDIA_IMGREADER_CANNOT_UNLOCK_IMAGE),
            -30005 => Ok(NonZeroSysMediaStatus::AMEDIA_IMGREADER_IMAGE_NOT_LOCKED),
            _ => Ok(NonZeroSysMediaStatus::AMEDIA_ERROR_UNKNOWN),
        }
    }

    /// The name of this status code, for diagnostics.
    pub fn err_str(self) -> (r: &'static str)
        ensures
            r@ == status_name(self),
    {
        match self {
            NonZeroSysMediaStatus::AMEDIACODEC_ERROR_INSUFFICIENT_RESOURCE => "AMEDIACODEC_ERROR_INSUFFICIENT_RESOURCE",
            NonZeroSysMediaStatus::AMEDIACODEC_ERROR_RECLAIMED => "AMEDIACODEC_ERROR_RECLAIMED",
            NonZeroSysMediaStatus::AMEDIA_ERROR_UNKNOWN => "AMEDIA_ERROR_UNKNOWN",
            NonZeroSysMediaStatus::AMEDIA_ERROR_MALFORMED => "AMEDIA_ERROR_MALFORMED",
            NonZeroSysMediaStatus::AMEDIA_ERROR_UNSUPPORTED => "AMEDIA_ERROR_UNSUPPORTED",
            NonZeroSysMediaStatus::AMEDIA_ERROR_INVALID_OBJECT => "AMEDIA_ERROR_INVALID_OBJECT",
            NonZeroSysMediaStatus::AMEDIA_ERROR_INVALID_PARAMETER => "AMEDIA_ERROR_INVALID_PARAMETER",
            NonZeroSysMediaStatus::AMEDIA_ERROR_INVALID_OPERATION => "AMEDIA_ERROR_INVALID_OPERATION",
            NonZeroSysMediaStatus::AMEDIA_ERROR_END_OF_STREAM => "AMEDIA_ERROR_END_OF_STREAM",
            NonZeroSysMediaStatus::AMEDIA_ERROR_IO => "AMEDIA_ERROR_IO",
            NonZeroSysMediaStatus::AMEDIA_ERROR_WOULD_BLOCK => "AMEDIA_ERROR_WOULD_BLOCK",
            NonZeroSysMediaStatus::AMEDIA_DRM_ERROR_BASE => "AMEDIA_DRM_ERROR_BASE",
            NonZeroSysMediaStatus::AMEDIA_DRM_NOT_PROVISIONED => "AMEDIA_DRM_NOT_PROVISIONED",
            NonZeroSysMediaStatus::AMEDIA_DRM_RESOURCE_BUSY => "AMEDIA_DRM_RESOURCE_BUSY",
            NonZeroSysMediaStatus::AMEDIA_DRM_DEVICE_REVOKED => "AMEDIA_DRM_DEVICE_REVOKED",
            NonZeroSysMediaStatus::AMEDIA_DRM_SHORT_BUFFER => "AMEDIA_DRM_SHORT_BUFFER",
            NonZeroSysMediaStatus::AMEDIA_DRM_SESSION_NOT_OPENED => "AMEDIA_DRM_SESSION_NOT_OPENED",
            NonZeroSysMediaStatus::AMEDIA_DRM_TAMPER_DETECTED => "AMEDIA_DRM_TAMPER_DETECTED",
            NonZeroSysMediaStatus::AMEDIA_DRM_VERIFY_FAILED => "AMEDIA_DRM_VERIFY_FAILED",
            NonZeroSysMediaStatus::AMEDIA_DRM_NEED_KEY => "AMEDIA_DRM_NEED_KEY",
            NonZeroSysMediaStatus::AMEDIA_DRM_LICENSE_EXPIRED => "AMEDIA_DRM_LICENSE_EXPIRED",
            NonZeroSysMediaStatus::AMEDIA_IMGREADER_ERROR_BASE => "AMEDIA_IMGREADER_ERROR_BASE",
            NonZeroSysMediaStatus::AMEDIA_IMGREADER_NO_BUFFER_AVAILABLE => "AMEDIA_IMGREADER_NO_BUFFER_AVAILABLE",
            NonZeroSysMediaStatus::AMEDIA_IMGREADER_MAX_IMAGES_ACQUIRED => "AMEDIA_IMGREADER_MAX_IMAGES_ACQUIRED",
            NonZeroSysMediaStatus::AMEDIA_IMGREADER_CANNOT_LOCK_IMAGE => "AMEDIA_IMGREADER_CANNOT_LOCK_IMAGE",
            NonZeroSysMediaStatus::AMEDIA_IMGREADER_CANNOT_UNLOCK_IMAGE => "AMEDIA_IMGREADER_CANNOT_UNLOCK_IMAGE",
            NonZeroSysMediaStatus::AMEDIA_IMGREADER_IMAGE_NOT_LOCKED => "AMEDIA_IMGREADER_IMAGE_NOT_LOCKED",
        }
    }
}

/// The description of the wrapper-level failures.
pub open spec fn media_status_name(s: MediaStatus) -> Seq<char> {
    match s {
        MediaStatus::Sys(n) => status_name(n),
        MediaStatus::AllocationError => "AllocationError"@,
        MediaStatus::StringNulError => "StringNulError"@,
        MediaStatus::MediaCodecCreationFailed => "MediaCodecCreationFailed"@,
        MediaStatus::NoAvailableBuffer => "NoAvailableBuffer"@,
    }
}

impl MediaStatus {
    /// The name of this failure, for diagnostics.
    pub fn err_str(self) -> (r: &'static str)
        ensures
            r@ == media_status_name(self),
    {
        match self {
            MediaStatus::Sys(n) => n.err_str(),
            MediaStatus::AllocationError => "AllocationError",
            MediaStatus::StringNulError => "StringNulError",
            MediaStatus::MediaCodecCreationFailed => "MediaCodecCreationFailed",
            MediaStatus::NoAvailableBuffer => "NoAvailableBuffer",
        }
    }
}

/// Marker bound restricting `AsMediaStatus` to the raw status code type.
pub trait Sealed {
}

impl Sealed for i32 {
}

/// Helper trait for ease of error handling of raw media status codes.
pub trait AsMediaStatus: Sealed + Sized {
    /// What `success` returns for this value.
    spec fn status_result(self) -> Result<(), MediaStatus>;

    /// Return `Ok(())` on the success code, else the error.
    fn success(self) -> (r: Result<(), MediaStatus>)
        ensures
            r == self.status_result(),
    ;
}

impl AsMediaStatus for i32 {
    open spec fn status_result(self) -> Result<(), MediaStatus> {
        match status_from_code(self) {
            Ok(n) => Err(MediaStatus::Sys(n)),
            Err(_) => Ok(()),
        }
    }

    fn success(self) -> (r: Result<(), MediaStatus>) {
        match NonZeroSysMediaStatus::try_from_code(self) {
            Ok(n) => Err(MediaStatus::Sys(n)),
            Err(_) => Ok(()),
        }
    }
}

} // verus!
