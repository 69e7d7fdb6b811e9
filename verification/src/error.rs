//! The error taxonomy: what the hook, the broker and the installer can
//! fail with. Carried details are plain values; each error renders its
//! human-readable message.

use crate::text::dec_spec;
use crate::text::u64_to_dec;
use vstd::prelude::*;
use vstd::string::StringExecFns;

verus! {

/// What the hook's one-shot flow can fail with.
#[derive(Debug)]
pub enum HookError {
    /// The socket path has no file: the broker is not running.
    SocketNotFound(String),
    /// The file exists but nobody listens.
    ConnectionRefused,
    /// The broker's reply was empty or not a valid response.
    InvalidResponse(String),
    /// No reply arrived within the hook's grace window, in seconds.
    Timeout(u64),
    /// A transport failure, with the underlying report.
    ConnectionFailed(String),
    /// The standard input was not a valid request envelope.
    InvalidInput(String),
}

impl HookError {
    /// The human-readable report of the failure.
    pub fn message(&self) -> (r: String)
        ensures
            match *self {
                HookError::SocketNotFound(p) => r@ == "Bot not running (socket not found at "@
                    + p@ + ")"@,
                HookError::ConnectionRefused => r@
                    == "Connection refused (socket exists but bot not responding)"@,
                HookError::InvalidResponse(d) => r@ == "Invalid response from bot: "@ + d@,
                HookError::Timeout(secs) => r@ == "Request timed out after "@ + dec_spec(
                    secs as int,
                ) + "s"@,
                HookError::ConnectionFailed(d) => r@ == "IPC connection failed: "@ + d@,
                HookError::InvalidInput(d) => r@ == "Failed to parse hook input: "@ + d@,
            },
    {
        match self {
            HookError::SocketNotFound(p) => {
                let mut r = String::from_str("Bot not running (socket not found at ");
                r.append(p.as_str());
                r.append(")");
                r
            },
            HookError::ConnectionRefused => String::from_str(
                "Connection refused (socket exists but bot not responding)",
            ),
            HookError::InvalidResponse(d) => {
                let mut r = String::from_str("Invalid response from bot: ");
                r.append(d.as_str());
                r
            },
            HookError::Timeout(secs) => {
                let mut r = String::from_str("Request timed out after ");
                let n = u64_to_dec(*secs);
                r.append(n.as_str());
                r.append("s");
                r
            },
            HookError::ConnectionFailed(d) => {
                let mut r = String::from_str("IPC connection failed: ");
                r.append(d.as_str());
                r
            },
            HookError::InvalidInput(d) => {
                let mut r = String::from_str("Failed to parse hook input: ");
                r.append(d.as_str());
                r
            },
        }
    }
}

/// What the broker daemon can fail with at startup.
#[derive(Debug)]
pub enum BotError {
    /// Another broker holds the socket; the path is carried.
    AlreadyRunning(String),
    /// The configuration broke a rule; the report is carried.
    ConfigInvalid(String),
    /// Binding or unlinking the socket failed; the report is carried.
    SocketBind(String),
}

impl BotError {
    /// The human-readable report of the failure.
    pub fn message(&self) -> (r: String)
        ensures
            match *self {
                BotError::AlreadyRunning(p) => r@ == "Bot already running (socket is active at "@
                    + p@ + ")"@,
                BotError::ConfigInvalid(d) => r@ == "Invalid configuration: "@ + d@,
                BotError::SocketBind(d) => r@ == "Socket bind error: "@ + d@,
            },
    {
        match self {
            BotError::AlreadyRunning(p) => {
                let mut r = String::from_str("Bot already running (socket is active at ");
                r.append(p.as_str());
                r.append(")");
                r
            },
            BotError::ConfigInvalid(d) => {
                let mut r = String::from_str("Invalid configuration: ");
                r.append(d.as_str());
                r
            },
            BotError::SocketBind(d) => {
                let mut r = String::from_str("Socket bind error: ");
                r.append(d.as_str());
                r
            },
        }
    }
}

/// What the settings installer can fail with.
#[derive(Debug)]
pub enum InstallError {
    /// The settings location could not be determined.
    SettingsNotFound(String),
    /// The settings file held something other than a JSON object.
    ParseError(String),
    /// Reading or writing the settings file failed.
    WriteError(String),
}

impl InstallError {
    /// The human-readable report of the failure.
    pub fn message(&self) -> (r: String)
        ensures
            match *self {
                InstallError::SettingsNotFound(d) => r@ == "Settings file not found at "@ + d@,
                InstallError::ParseError(d) => r@ == "Failed to parse settings: "@ + d@,
                InstallError::WriteError(d) => r@ == "Failed to write settings: "@ + d@,
            },
    {
        match self {
            InstallError::SettingsNotFound(d) => {
                let mut r = String::from_str("Settings file not found at ");
                r.append(d.as_str());
                r
            },
            InstallError::ParseError(d) => {
                let mut r = String::from_str("Failed to parse settings: ");
                r.append(d.as_str());
                r
            },
            InstallError::WriteError(d) => {
                let mut r = String::from_str("Failed to write settings: ");
                r.append(d.as_str());
                r
            },
        }
    }
}

} // verus!
