//! The errors of configuration work and of request preparation.

use vstd::prelude::*;

verus! {

/// Why a configuration operation failed.
#[derive(Debug, PartialEq, Eq)]
pub enum AppError {
    /// The configuration is not usable.
    Config(String),
    /// The caller asked for something that is not allowed.
    InvalidInput(String),
    /// A JSON value could not be written.
    JsonSerialize(String),
    /// A file could not be read or written.
    Io(String),
    /// A service outside this library failed.
    Message(String),
}

/// What an [`AppError`] says.
pub enum AppFault {
    Config(Seq<char>),
    InvalidInput(Seq<char>),
    JsonSerialize(Seq<char>),
    Io(Seq<char>),
    Message(Seq<char>),
}

impl View for AppError {
    type V = AppFault;

    open spec fn view(&self) -> AppFault {
        match *self {
            AppError::Config(m) => AppFault::Config(m@),
            AppError::InvalidInput(m) => AppFault::InvalidInput(m@),
            AppError::JsonSerialize(m) => AppFault::JsonSerialize(m@),
            AppError::Io(m) => AppFault::Io(m@),
            AppError::Message(m) => AppFault::Message(m@),
        }
    }
}

impl AppError {
    /// The text of the error.
    pub fn message(&self) -> (r: String)
        ensures
            r@ == match self@ {
                AppFault::Config(m) => m,
                AppFault::InvalidInput(m) => m,
                AppFault::JsonSerialize(m) => m,
                AppFault::Io(m) => m,
                AppFault::Message(m) => m,
            },
    {
        match self {
            AppError::Config(m) => m.clone(),
            AppError::InvalidInput(m) => m.clone(),
            AppError::JsonSerialize(m) => m.clone(),
            AppError::Io(m) => m.clone(),
            AppError::Message(m) => m.clone(),
        }
    }

    /// A configuration error with this text.
    pub fn config(text: &str) -> (r: AppError)
        ensures
            r@ == AppFault::Config(text@),
    {
        AppError::Config(text.to_owned())
    }

    /// An error of the caller with this text.
    pub fn invalid_input(text: &str) -> (r: AppError)
        ensures
            r@ == AppFault::InvalidInput(text@),
    {
        AppError::InvalidInput(text.to_owned())
    }
}

/// Why a request could not be prepared.
#[derive(Debug, PartialEq, Eq)]
pub enum ProxyError {
    /// The provider is not configured as it must be.
    ConfigError(String),
    /// The request cannot be served.
    InvalidRequest(String),
    /// Something failed inside.
    Internal(String),
}

/// What a [`ProxyError`] says.
pub enum ProxyFault {
    ConfigError(Seq<char>),
    InvalidRequest(Seq<char>),
    Internal(Seq<char>),
}

impl View for ProxyError {
    type V = ProxyFault;

    open spec fn view(&self) -> ProxyFault {
        match *self {
            ProxyError::ConfigError(m) => ProxyFault::ConfigError(m@),
            ProxyError::InvalidRequest(m) => ProxyFault::InvalidRequest(m@),
            ProxyError::Internal(m) => ProxyFault::Internal(m@),
        }
    }
}

impl ProxyError {
    /// The text of the error.
    pub fn message(&self) -> (r: String)
        ensures
            r@ == match self@ {
                ProxyFault::ConfigError(m) => m,
                ProxyFault::InvalidRequest(m) => m,
                ProxyFault::Internal(m) => m,
            },
    {
        match self {
            ProxyError::ConfigError(m) => m.clone(),
            ProxyError::InvalidRequest(m) => m.clone(),
            ProxyError::Internal(m) => m.clone(),
        }
    }

    /// A copy of the error.
    pub fn copy(&self) -> (r: ProxyError)
        ensures
            r@ == self@,
    {
        match self {
            ProxyError::ConfigError(m) => ProxyError::ConfigError(m.clone()),
            ProxyError::InvalidRequest(m) => ProxyError::InvalidRequest(m.clone()),
            ProxyError::Internal(m) => ProxyError::Internal(m.clone()),
        }
    }
}

} // verus!
