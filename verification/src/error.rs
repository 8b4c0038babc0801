//! The errors of the library, and the message that each of them shows.

use vstd::prelude::*;
use vstd::string::*;

use crate::text::{decimal_string, decimal_text};

verus! {

/// Everything that can go wrong while checking a requirements file.
///
/// Causes that come from outside the library (an I/O error, a transport
/// error) are carried as the text that they display.
#[derive(Debug)]
pub enum RqCheckError {
    FileReadError { path: String, reason: String },
    RequirementsParseError(String),
    ConfigError(String),
    NetworkError { package: String, reason: String },
    VersionParseError { package: String, reason: String },
    InvalidRequirement(String),
    HttpError { package: String, status: u16 },
    TimeoutError { package: String },
}

/// The content of an [`RqCheckError`], as sequences of characters.
pub enum ErrorData {
    FileRead { path: Seq<char>, reason: Seq<char> },
    RequirementsParse(Seq<char>),
    Config(Seq<char>),
    Network { package: Seq<char>, reason: Seq<char> },
    VersionParse { package: Seq<char>, reason: Seq<char> },
    InvalidRequirement(Seq<char>),
    Http { package: Seq<char>, status: u16 },
    Timeout { package: Seq<char> },
}

impl View for RqCheckError {
    type V = ErrorData;

    open spec fn view(&self) -> ErrorData {
        match self {
            RqCheckError::FileReadError { path, reason } => ErrorData::FileRead {
                path: path@,
                reason: reason@,
            },
            RqCheckError::RequirementsParseError(m) => ErrorData::RequirementsParse(m@),
            RqCheckError::ConfigError(m) => ErrorData::Config(m@),
            RqCheckError::NetworkError { package, reason } => ErrorData::Network {
                package: package@,
                reason: reason@,
            },
            RqCheckError::VersionParseError { package, reason } => ErrorData::VersionParse {
                package: package@,
                reason: reason@,
            },
            RqCheckError::InvalidRequirement(m) => ErrorData::InvalidRequirement(m@),
            RqCheckError::HttpError { package, status } => ErrorData::Http {
                package: package@,
                status: *status,
            },
            RqCheckError::TimeoutError { package } => ErrorData::Timeout { package: package@ },
        }
    }
}

/// The message that an error shows.
pub open spec fn error_message(e: ErrorData) -> Seq<char> {
    match e {
        ErrorData::FileRead { path, reason } => "Failed to read requirements file '"@ + path
            + "': "@ + reason,
        ErrorData::RequirementsParse(m) => "Failed to parse requirements file: "@ + m,
        ErrorData::Config(m) => "Failed to load configuration: "@ + m,
        ErrorData::Network { package, reason } => "Network error while checking package '"@
            + package + "': "@ + reason,
        ErrorData::VersionParse { package, reason } => "Failed to parse version for package '"@
            + package + "': "@ + reason,
        ErrorData::InvalidRequirement(m) => "Invalid package requirement: "@ + m,
        ErrorData::Http { package, status } => "HTTP request failed for package '"@ + package
            + "': status "@ + decimal_text(status as nat),
        ErrorData::Timeout { package } => "Timeout while checking package '"@ + package + "'"@,
    }
}

impl RqCheckError {
    /// The message that the error shows.
    pub fn message(&self) -> (m: String)
        ensures
            m@ == error_message(self@),
    {
        match self {
            RqCheckError::FileReadError { path, reason } => {
                let mut m = String::from_str("Failed to read requirements file '");
                m.append(path.as_str());
                m.append("': ");
                m.append(reason.as_str());
                m
            },
            RqCheckError::RequirementsParseError(detail) => {
                let mut m = String::from_str("Failed to parse requirements file: ");
                m.append(detail.as_str());
                m
            },
            RqCheckError::ConfigError(detail) => {
                let mut m = String::from_str("Failed to load configuration: ");
                m.append(detail.as_str());
                m
            },
            RqCheckError::NetworkError { package, reason } => {
                let mut m = String::from_str("Network error while checking package '");
                m.append(package.as_str());
                m.append("': ");
                m.append(reason.as_str());
                m
            },
            RqCheckError::VersionParseError { package, reason } => {
                let mut m = String::from_str("Failed to parse version for package '");
                m.append(package.as_str());
                m.append("': ");
                m.append(reason.as_str());
                m
            },
            RqCheckError::InvalidRequirement(detail) => {
                let mut m = String::from_str("Invalid package requirement: ");
                m.append(detail.as_str());
                m
            },
            RqCheckError::HttpError { package, status } => {
                let mut m = String::from_str("HTTP request failed for package '");
                m.append(package.as_str());
                m.append("': status ");
                let digits = decimal_string(*status as u64);
                m.append(digits.as_str());
                m
            },
            RqCheckError::TimeoutError { package } => {
                let mut m = String::from_str("Timeout while checking package '");
                m.append(package.as_str());
                m.append("'");
                m
            },
        }
    }
}

} // verus!
