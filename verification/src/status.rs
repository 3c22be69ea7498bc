//! Failures of the services around the catalog and the status with which
//! each is reported to a client.

use vstd::prelude::*;

verus! {

pub const BAD_REQUEST: u16 = 400;

pub const NOT_FOUND: u16 = 404;

pub const METHOD_NOT_ALLOWED: u16 = 405;

pub const INTERNAL_SERVER_ERROR: u16 = 500;

pub const BAD_GATEWAY: u16 = 502;

/// Why an operation on roles failed.
#[derive(Debug)]
pub enum RoleError {
    ObjectStorageError(String),
    RoleInUse,
}

impl RoleError {
    pub fn status_code(&self) -> (status: u16)
        ensures
            status == match *self {
                RoleError::ObjectStorageError(_) => INTERNAL_SERVER_ERROR,
                RoleError::RoleInUse => BAD_REQUEST,
            },
    {
        match self {
            Self::ObjectStorageError(_) => INTERNAL_SERVER_ERROR,
            Self::RoleInUse => BAD_REQUEST,
        }
    }
}

/// Why an operation on users failed.
#[derive(Debug)]
pub enum RBACError {
    UserExists,
    UserDoesNotExist,
    SerdeError(String),
    ObjectStorageError(String),
    ValidationError(String),
    /// A failure of the network, with the status that the other side
    /// answered with, if it answered.
    Network(Option<u16>),
    Anyhow(String),
    RoleValidationError,
}

impl RBACError {
    pub fn status_code(&self) -> (status: u16)
        ensures
            status == match *self {
                RBACError::UserExists => BAD_REQUEST,
                RBACError::UserDoesNotExist => NOT_FOUND,
                RBACError::SerdeError(_) => BAD_REQUEST,
                RBACError::ValidationError(_) => BAD_REQUEST,
                RBACError::ObjectStorageError(_) => INTERNAL_SERVER_ERROR,
                RBACError::Network(_) => BAD_GATEWAY,
                RBACError::Anyhow(_) => INTERNAL_SERVER_ERROR,
                RBACError::RoleValidationError => BAD_REQUEST,
            },
    {
        match self {
            Self::UserExists => BAD_REQUEST,
            Self::UserDoesNotExist => NOT_FOUND,
            Self::SerdeError(_) => BAD_REQUEST,
            Self::ValidationError(_) => BAD_REQUEST,
            Self::ObjectStorageError(_) => INTERNAL_SERVER_ERROR,
            Self::Network(_) => BAD_GATEWAY,
            Self::Anyhow(_) => INTERNAL_SERVER_ERROR,
            Self::RoleValidationError => BAD_REQUEST,
        }
    }
}

/// Why a stream could not be created or changed.
#[derive(Debug)]
pub enum CreateStreamError {
    StreamNameValidation(String),
    Storage { stream_name: String, err: String },
    Custom { msg: String, status: u16 },
    SerdeError(String),
}

/// Why an operation on a stream failed.
#[derive(Debug)]
pub enum StreamError {
    CreateStream(CreateStreamError),
    StreamNotFound(String),
    CacheNotEnabled(String),
    UninitializedLogstream,
    Storage(String),
    NoAlertsSet,
    BadAlertJson { stream: String, err: String },
    AlertValidation(String),
    InvalidAlert(String),
    InvalidAlertMessage(String, String),
    InvalidRetentionConfig(String),
    Custom { msg: String, status: u16 },
    Anyhow(String),
    /// A failure of the network, with the status that the other side
    /// answered with, if it answered.
    Network(Option<u16>),
    SerdeError(String),
    HotTierNotEnabled(String),
    InvalidHotTierConfig(String),
    HotTierValidation(String),
    HotTierError(String),
}

impl StreamError {
    /// The status with which the failure is reported. A failure to create a
    /// stream is reported as a failure of the server unless the name or the
    /// request body was at fault.
    pub open spec fn status(self) -> u16 {
        match self {
            StreamError::CreateStream(CreateStreamError::StreamNameValidation(_)) => BAD_REQUEST,
            StreamError::CreateStream(CreateStreamError::Storage { .. }) => INTERNAL_SERVER_ERROR,
            StreamError::CreateStream(CreateStreamError::Custom { .. }) => INTERNAL_SERVER_ERROR,
            StreamError::CreateStream(CreateStreamError::SerdeError(_)) => BAD_REQUEST,
            StreamError::CacheNotEnabled(_) => BAD_REQUEST,
            StreamError::StreamNotFound(_) => NOT_FOUND,
            StreamError::Custom { status, .. } => status,
            StreamError::UninitializedLogstream => METHOD_NOT_ALLOWED,
            StreamError::Storage(_) => INTERNAL_SERVER_ERROR,
            StreamError::NoAlertsSet => NOT_FOUND,
            StreamError::BadAlertJson { .. } => BAD_REQUEST,
            StreamError::AlertValidation(_) => BAD_REQUEST,
            StreamError::InvalidAlert(_) => BAD_REQUEST,
            StreamError::InvalidAlertMessage(_, _) => BAD_REQUEST,
            StreamError::InvalidRetentionConfig(_) => BAD_REQUEST,
            StreamError::SerdeError(_) => BAD_REQUEST,
            StreamError::Anyhow(_) => INTERNAL_SERVER_ERROR,
            StreamError::Network(Some(answered)) => answered,
            StreamError::Network(None) => INTERNAL_SERVER_ERROR,
            StreamError::HotTierNotEnabled(_) => BAD_REQUEST,
            StreamError::InvalidHotTierConfig(_) => BAD_REQUEST,
            StreamError::HotTierValidation(_) => BAD_REQUEST,
            StreamError::HotTierError(_) => INTERNAL_SERVER_ERROR,
        }
    }

    pub fn status_code(&self) -> (status: u16)
        ensures
            status == self.status(),
    {
        match self {
            StreamError::CreateStream(CreateStreamError::StreamNameValidation(_)) => BAD_REQUEST,
            StreamError::CreateStream(CreateStreamError::Storage { .. }) => INTERNAL_SERVER_ERROR,
            StreamError::CreateStream(CreateStreamError::Custom { .. }) => INTERNAL_SERVER_ERROR,
            StreamError::CreateStream(CreateStreamError::SerdeError(_)) => BAD_REQUEST,
            StreamError::CacheNotEnabled(_) => BAD_REQUEST,
            StreamError::StreamNotFound(_) => NOT_FOUND,
            StreamError::Custom { status, .. } => *status,
            StreamError::UninitializedLogstream => METHOD_NOT_ALLOWED,
            StreamError::Storage(_) => INTERNAL_SERVER_ERROR,
            StreamError::NoAlertsSet => NOT_FOUND,
            StreamError::BadAlertJson { .. } => BAD_REQUEST,
            StreamError::AlertValidation(_) => BAD_REQUEST,
            StreamError::InvalidAlert(_) => BAD_REQUEST,
            StreamError::InvalidAlertMessage(_, _) => BAD_REQUEST,
            StreamError::InvalidRetentionConfig(_) => BAD_REQUEST,
            StreamError::SerdeError(_) => BAD_REQUEST,
            StreamError::Anyhow(_) => INTERNAL_SERVER_ERROR,
            StreamError::Network(answered) => match answered {
                Some(status) => *status,
                None => INTERNAL_SERVER_ERROR,
            },
            StreamError::HotTierNotEnabled(_) => BAD_REQUEST,
            StreamError::InvalidHotTierConfig(_) => BAD_REQUEST,
            StreamError::HotTierValidation(_) => BAD_REQUEST,
            StreamError::HotTierError(_) => INTERNAL_SERVER_ERROR,
        }
    }
}

/// A failure to find the metadata of a stream, or a mode of operation that
/// does not fit.
#[derive(Debug)]
pub enum MetadataError {
    StreamMetaNotFound(String),
    StandaloneWithDistributed(String),
}

impl StreamError {
    /// The stream error that reports a failure of the metadata.
    pub fn from_metadata(value: MetadataError) -> (error: StreamError)
        ensures
            match value {
                MetadataError::StreamMetaNotFound(name) => error == StreamError::StreamNotFound(
                    name,
                ),
                MetadataError::StandaloneWithDistributed(text) => error == (StreamError::Custom {
                    msg: text,
                    status: INTERNAL_SERVER_ERROR,
                }),
            },
    {
        match value {
            MetadataError::StreamMetaNotFound(s) => StreamError::StreamNotFound(s),
            MetadataError::StandaloneWithDistributed(s) => StreamError::Custom {
                msg: s,
                status: INTERNAL_SERVER_ERROR,
            },
        }
    }
}

/// Why an operation on correlations failed.
#[derive(Debug)]
pub enum CorrelationError {
    ObjectStorage(String),
    Serde(String),
    Metadata(&'static str),
    UserDoesNotExist(RBACError),
    AnyhowError(String),
    Unauthorized,
}

impl CorrelationError {
    pub fn status_code(&self) -> (status: u16)
        ensures
            status == match *self {
                CorrelationError::ObjectStorage(_) => INTERNAL_SERVER_ERROR,
                CorrelationError::Serde(_) => BAD_REQUEST,
                CorrelationError::Metadata(_) => BAD_REQUEST,
                CorrelationError::UserDoesNotExist(_) => NOT_FOUND,
                CorrelationError::AnyhowError(_) => INTERNAL_SERVER_ERROR,
                CorrelationError::Unauthorized => BAD_REQUEST,
            },
    {
        match self {
            Self::ObjectStorage(_) => INTERNAL_SERVER_ERROR,
            Self::Serde(_) => BAD_REQUEST,
            Self::Metadata(_) => BAD_REQUEST,
            Self::UserDoesNotExist(_) => NOT_FOUND,
            Self::AnyhowError(_) => INTERNAL_SERVER_ERROR,
            Self::Unauthorized => BAD_REQUEST,
        }
    }
}

} // verus!
